//! The external conversion invoker's pure side: the single converter
//! invocation over the ordered manifest, and the interpretation of the
//! converter's completion. Paths are passed resolved against the output and
//! staging roots, so no working-directory change is needed.

use vstd::prelude::*;
use vstd::string::StrSliceExecFns;
use vstd::string::StringExecFns;
use crate::errors::BuildError;

verus! {

/// The external converter's program name.
pub open spec fn converter_program() -> Seq<char> {
    "pandoc"@
}

/// The fixed structural flags: a self-contained document, a generated table
/// of contents, numbered sections, and the layout engine.
pub open spec fn structural_flags() -> Seq<Seq<char>> {
    seq!["--standalone"@, "--toc"@, "--number-sections"@, "--latex-engine=xelatex"@]
}

/// The output artifact's path: `<output root>/book.<format>`.
pub open spec fn output_target(dest: Seq<char>, format: Seq<char>) -> Seq<char> {
    dest + "/book."@ + format
}

/// One stylesheet argument, the reference resolved against the output root.
pub open spec fn css_arg(dest: Seq<char>, css: Seq<char>) -> Seq<char> {
    "--css="@ + dest + "/"@ + css
}

/// A staged source's path: its relative path under the staging root.
pub open spec fn staged_path(staging: Seq<char>, rel: Seq<char>) -> Seq<char> {
    staging + "/"@ + rel
}

/// The whole invocation, program name first: one stylesheet argument per
/// reference, the structural flags, every staged source in manifest order,
/// then the output flag and target.
pub open spec fn invocation(
    dest: Seq<char>,
    staging: Seq<char>,
    format: Seq<char>,
    styles: Seq<Seq<char>>,
    sources_rel: Seq<Seq<char>>,
) -> Seq<Seq<char>> {
    seq![converter_program()] + styles.map_values(|c: Seq<char>| css_arg(dest, c))
        + structural_flags() + sources_rel.map_values(|r: Seq<char>| staged_path(staging, r))
        + seq!["-o"@, output_target(dest, format)]
}

/// Builds the converter invocation as an argument vector, program first.
pub fn build_invocation(
    dest: &str,
    staging: &str,
    format: &str,
    styles: &Vec<String>,
    sources_rel: &Vec<String>,
) -> (argv: Vec<String>)
    ensures
        argv.deep_view() == invocation(
            dest@,
            staging@,
            format@,
            styles.deep_view(),
            sources_rel.deep_view(),
        ),
{
    let ghost style_of = |c: Seq<char>| css_arg(dest@, c);
    let ghost source_of = |r: Seq<char>| staged_path(staging@, r);
    let mut argv: Vec<String> = Vec::new();
    argv.push("pandoc".to_owned());
    proof {
        assert(argv.deep_view() =~= seq![converter_program()] + styles.deep_view().take(
            0,
        ).map_values(style_of));
    }
    let mut i: usize = 0;
    while i < styles.len()
        invariant
            0 <= i <= styles@.len(),
            style_of == (|c: Seq<char>| css_arg(dest@, c)),
            argv.deep_view() == seq![converter_program()] + styles.deep_view().take(
                i as int,
            ).map_values(style_of),
        decreases styles@.len() - i,
    {
        let mut arg = "--css=".to_owned();
        arg.append(dest);
        arg.append("/");
        arg.append(styles[i].as_str());
        let ghost before = argv.deep_view();
        argv.push(arg);
        proof {
            assert(argv.deep_view() =~= before + seq![css_arg(dest@, styles.deep_view()[i as int])]);
            assert(seq![converter_program()] + styles.deep_view().take(i as int).map_values(
                style_of,
            ) + seq![style_of(styles.deep_view()[i as int])] =~= seq![converter_program()]
                + styles.deep_view().take(i + 1).map_values(style_of));
        }
        i = i + 1;
    }
    proof {
        assert(styles.deep_view().take(styles@.len() as int) =~= styles.deep_view());
    }
    let ghost head = seq![converter_program()] + styles.deep_view().map_values(style_of);
    argv.push("--standalone".to_owned());
    argv.push("--toc".to_owned());
    argv.push("--number-sections".to_owned());
    argv.push("--latex-engine=xelatex".to_owned());
    proof {
        assert(argv.deep_view() =~= head + structural_flags() + sources_rel.deep_view().take(
            0,
        ).map_values(source_of));
    }
    let mut j: usize = 0;
    while j < sources_rel.len()
        invariant
            0 <= j <= sources_rel@.len(),
            source_of == (|r: Seq<char>| staged_path(staging@, r)),
            head == seq![converter_program()] + styles.deep_view().map_values(
                |c: Seq<char>| css_arg(dest@, c),
            ),
            argv.deep_view() == head + structural_flags() + sources_rel.deep_view().take(
                j as int,
            ).map_values(source_of),
        decreases sources_rel@.len() - j,
    {
        let mut arg = staging.to_owned();
        arg.append("/");
        arg.append(sources_rel[j].as_str());
        let ghost before = argv.deep_view();
        argv.push(arg);
        proof {
            assert(argv.deep_view() =~= before + seq![
                staged_path(staging@, sources_rel.deep_view()[j as int]),
            ]);
            assert(head + structural_flags() + sources_rel.deep_view().take(j as int).map_values(
                source_of,
            ) + seq![source_of(sources_rel.deep_view()[j as int])] =~= head + structural_flags()
                + sources_rel.deep_view().take(j + 1).map_values(source_of));
        }
        j = j + 1;
    }
    proof {
        assert(sources_rel.deep_view().take(sources_rel@.len() as int) =~= sources_rel.deep_view());
    }
    argv.push("-o".to_owned());
    let mut target = dest.to_owned();
    target.append("/book.");
    target.append(format);
    argv.push(target);
    proof {
        assert(argv.deep_view() =~= invocation(
            dest@,
            staging@,
            format@,
            styles.deep_view(),
            sources_rel.deep_view(),
        ));
    }
    argv
}

/// Interprets the external converter's completion: exit status zero is the
/// only success; any other exit — or an exit with no code at all — is fatal
/// and carries the captured output streams for diagnosis.
pub fn converter_outcome(exit_code: Option<i32>, stdout: String, stderr: String) -> (r: Result<
    (),
    BuildError,
>)
    ensures
        r is Ok <==> exit_code == Some(0i32),
        exit_code != Some(0i32) ==> r == Result::<(), BuildError>::Err(
            BuildError::Converter(exit_code, stdout, stderr),
        ),
{
    match exit_code {
        Some(c) => {
            if c == 0 {
                Ok(())
            } else {
                Err(BuildError::Converter(exit_code, stdout, stderr))
            }
        },
        None => Err(BuildError::Converter(exit_code, stdout, stderr)),
    }
}

} // verus!
