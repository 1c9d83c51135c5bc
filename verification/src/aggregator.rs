//! Output formatting: one document from the selected files' contents.
//!
//! [`format_output`] renders a project header and one block per file, in
//! Markdown or in a plain-text layout with separators, fencing each file's
//! content with a language tag chosen from the file's extension by
//! [`get_language_identifier`].

use vstd::prelude::*;
use vstd::string::*;

use crate::text::{base_name, base_name_of, extension_of, extension_of_name, str_eq};

verus! {

/// The language tag for a file extension; `text` for one that is not
/// recognised.
pub open spec fn lang_for_extension(e: Seq<char>) -> Seq<char> {
    if e == "rs"@ {
        "rust"@
    } else if e == "py"@ {
        "python"@
    } else if e == "js"@ {
        "javascript"@
    } else if e == "ts"@ {
        "typescript"@
    } else if e == "html"@ {
        "html"@
    } else if e == "css"@ {
        "css"@
    } else if e == "json"@ {
        "json"@
    } else if e == "yaml"@ || e == "yml"@ {
        "yaml"@
    } else if e == "md"@ {
        "markdown"@
    } else if e == "sh"@ {
        "bash"@
    } else if e == "sql"@ {
        "sql"@
    } else if e == "c"@ {
        "c"@
    } else if e == "cpp"@ || e == "cxx"@ || e == "cc"@ {
        "cpp"@
    } else if e == "java"@ {
        "java"@
    } else if e == "go"@ {
        "go"@
    } else if e == "rb"@ {
        "ruby"@
    } else if e == "php"@ {
        "php"@
    } else if e == "swift"@ {
        "swift"@
    } else if e == "kt"@ || e == "kts"@ {
        "kotlin"@
    } else if e == "scala"@ {
        "scala"@
    } else if e == "hs"@ {
        "haskell"@
    } else if e == "lua"@ {
        "lua"@
    } else if e == "pl"@ {
        "perl"@
    } else if e == "r"@ {
        "r"@
    } else if e == "dart"@ {
        "dart"@
    } else if e == "fs"@ || e == "fsx"@ {
        "fsharp"@
    } else if e == "jl"@ {
        "julia"@
    } else if e == "ex"@ || e == "exs"@ {
        "elixir"@
    } else if e == "cs"@ {
        "csharp"@
    } else if e == "vb"@ {
        "vb.net"@
    } else if e == "xml"@ {
        "xml"@
    } else if e == "toml"@ {
        "toml"@
    } else if e == "dockerfile"@ {
        "dockerfile"@
    } else if e == "makefile"@ {
        "makefile"@
    } else {
        "text"@
    }
}

/// The language tag of a path: the tag of its base name's extension, or
/// `text` when it has none.
pub open spec fn spec_language_identifier(path: Seq<char>) -> Seq<char> {
    match extension_of(base_name(path)) {
        None => "text"@,
        Some(e) => lang_for_extension(e),
    }
}

/// The separator line of the plain-text layout.
pub open spec fn spec_separator() -> Seq<char> {
    "========================================"@
}

/// The document header naming the project.
pub open spec fn spec_header(project_name: Seq<char>, markdown: bool) -> Seq<char> {
    if markdown {
        "# Project: "@ + project_name + "\n\n"@
    } else {
        "# Project: "@ + project_name + "\n"@ + spec_separator() + "\n\n"@
    }
}

/// The block rendered for one file: its path, then its content in a code
/// fence tagged with the file's language.
pub open spec fn spec_file_block(file: Seq<char>, content: Seq<char>, markdown: bool) -> Seq<
    char,
> {
    if markdown {
        "## File: "@ + file + "\n\n```"@ + spec_language_identifier(file) + "\n"@ + content
            + "\n```\n\n"@
    } else {
        "## File: "@ + file + "\n"@ + spec_separator() + "\n```"@ + spec_language_identifier(file)
            + "\n"@ + content + "\n```\n\n"@
    }
}

/// The blocks of all files, in order.
pub open spec fn spec_file_blocks(contents: Seq<(Seq<char>, Seq<char>)>, markdown: bool) -> Seq<
    char,
>
    decreases contents.len(),
{
    if contents.len() == 0 {
        Seq::empty()
    } else {
        spec_file_blocks(contents.drop_last(), markdown) + spec_file_block(
            contents.last().0,
            contents.last().1,
            markdown,
        )
    }
}

/// The whole document: header, then one block per file.
pub open spec fn spec_format_output(
    project_name: Seq<char>,
    contents: Seq<(Seq<char>, Seq<char>)>,
    markdown: bool,
) -> Seq<char> {
    spec_header(project_name, markdown) + spec_file_blocks(contents, markdown)
}

/// The language tag for a file path, chosen from its extension.
pub fn get_language_identifier(file: &str) -> (r: &'static str)
    ensures
        r@ == spec_language_identifier(file@),
{
    let name = base_name_of(file);
    match extension_of_name(name) {
        None => "text",
        Some(e) => {
            if str_eq(e, "rs") {
                "rust"
            } else if str_eq(e, "py") {
                "python"
            } else if str_eq(e, "js") {
                "javascript"
            } else if str_eq(e, "ts") {
                "typescript"
            } else if str_eq(e, "html") {
                "html"
            } else if str_eq(e, "css") {
                "css"
            } else if str_eq(e, "json") {
                "json"
            } else if str_eq(e, "yaml") || str_eq(e, "yml") {
                "yaml"
            } else if str_eq(e, "md") {
                "markdown"
            } else if str_eq(e, "sh") {
                "bash"
            } else if str_eq(e, "sql") {
                "sql"
            } else if str_eq(e, "c") {
                "c"
            } else if str_eq(e, "cpp") || str_eq(e, "cxx") || str_eq(e, "cc") {
                "cpp"
            } else if str_eq(e, "java") {
                "java"
            } else if str_eq(e, "go") {
                "go"
            } else if str_eq(e, "rb") {
                "ruby"
            } else if str_eq(e, "php") {
                "php"
            } else if str_eq(e, "swift") {
                "swift"
            } else if str_eq(e, "kt") || str_eq(e, "kts") {
                "kotlin"
            } else if str_eq(e, "scala") {
                "scala"
            } else if str_eq(e, "hs") {
                "haskell"
            } else if str_eq(e, "lua") {
                "lua"
            } else if str_eq(e, "pl") {
                "perl"
            } else if str_eq(e, "r") {
                "r"
            } else if str_eq(e, "dart") {
                "dart"
            } else if str_eq(e, "fs") || str_eq(e, "fsx") {
                "fsharp"
            } else if str_eq(e, "jl") {
                "julia"
            } else if str_eq(e, "ex") || str_eq(e, "exs") {
                "elixir"
            } else if str_eq(e, "cs") {
                "csharp"
            } else if str_eq(e, "vb") {
                "vb.net"
            } else if str_eq(e, "xml") {
                "xml"
            } else if str_eq(e, "toml") {
                "toml"
            } else if str_eq(e, "dockerfile") {
                "dockerfile"
            } else if str_eq(e, "makefile") {
                "makefile"
            } else {
                "text"
            }
        },
    }
}

/// The file name of the output document for a scan rooted at a directory
/// named `root_name`, with the extension the chosen format calls for.
pub fn output_file_name(root_name: &str, markdown: bool) -> (r: String)
    ensures
        markdown ==> r@ == root_name@ + "_conag_output.md"@,
        !markdown ==> r@ == root_name@ + "_conag_output.txt"@,
{
    let mut out: String = String::from_str(root_name);
    if markdown {
        out.append("_conag_output.md");
    } else {
        out.append("_conag_output.txt");
    }
    out
}

/// Renders the document for `contents`, a list of relative paths paired
/// with the files' text, in order.
pub fn format_output(project_name: &str, contents: &Vec<(String, String)>, markdown: bool) -> (r:
    String)
    ensures
        r@ == spec_format_output(project_name@, contents.deep_view(), markdown),
{
    let mut out: String = String::new();
    out.append("# Project: ");
    out.append(project_name);
    if markdown {
        out.append("\n\n");
    } else {
        out.append("\n");
        out.append("========================================");
        out.append("\n\n");
    }
    proof {
        assert(out@ =~= spec_header(project_name@, markdown));
    }
    let n: usize = contents.len();
    let mut i: usize = 0;
    while i < n
        invariant
            i <= n,
            n == contents@.len(),
            out@ =~= spec_header(project_name@, markdown) + spec_file_blocks(
                contents.deep_view().subrange(0, i as int),
                markdown,
            ),
        decreases n - i,
    {
        let file: &String = &contents[i].0;
        let content: &String = &contents[i].1;
        out.append("## File: ");
        out.append(file.as_str());
        if markdown {
            out.append("\n\n```");
        } else {
            out.append("\n");
            out.append("========================================");
            out.append("\n```");
        }
        let lang = get_language_identifier(file.as_str());
        out.append(lang);
        out.append("\n");
        out.append(content.as_str());
        out.append("\n```\n\n");
        proof {
            let dv = contents.deep_view();
            assert(dv[i as int].0 == contents@[i as int].0@);
            assert(dv[i as int].1 == contents@[i as int].1@);
            assert(dv.subrange(0, i + 1).drop_last() =~= dv.subrange(0, i as int));
            assert(dv.subrange(0, i + 1).last() == dv[i as int]);
            assert(out@ =~= spec_header(project_name@, markdown) + spec_file_blocks(
                dv.subrange(0, i + 1),
                markdown,
            ));
        }
        i = i + 1;
    }
    proof {
        assert(contents.deep_view().subrange(0, n as int) =~= contents.deep_view());
    }
    out
}

} // verus!
