use vstd::prelude::*;
use vstd::utf8::encode_utf8;

use crate::formatting::{
    lemma_unknown_token_is_raw, names_a_syntax, raw_list, rendering, syntax_for, syntax_name,
    OutputSyntax, RawFormatter,
};

verus! {

/// The syntax that the argument list selects: the one its third entry names, else `Raw`.
pub open spec fn syntax_arg(args: Seq<String>) -> OutputSyntax {
    if args.len() >= 3 {
        syntax_for(args[2]@)
    } else {
        OutputSyntax::Raw(RawFormatter)
    }
}

/// The bytes an input stands for: the file's contents where it names a file,
/// else the UTF-8 encoding of the text itself.
pub open spec fn input_bytes(text: Seq<char>, file_contents: Option<Seq<u8>>) -> Seq<u8> {
    match file_contents {
        Some(c) => c,
        None => encode_utf8(text),
    }
}

/// The two lines that describe a configuration.
pub open spec fn description(path_or_data: Seq<char>, syntax: OutputSyntax) -> Seq<char> {
    "path or data: "@ + path_or_data + "\n"@ + "output syntax: "@ + syntax_name(syntax) + "\n"@
}

/// What the command line asks for: the input, and the syntax to render it in.
#[derive(Debug)]
pub struct InitialConfig {
    pub path_or_data: String,
    pub output_syntax: OutputSyntax,
}

impl Default for InitialConfig {
    fn default() -> (r: Self)
        ensures
            r.path_or_data@ == Seq::<char>::empty(),
            r.output_syntax == OutputSyntax::Raw(RawFormatter),
    {
        InitialConfig { path_or_data: String::new(), output_syntax: OutputSyntax::default() }
    }
}

impl InitialConfig {
    /// Reads the configuration from the argument list, whose first entry is the
    /// program's name. The input is required; the syntax is optional.
    pub fn new(args: Vec<String>) -> (r: Result<Self, &'static str>)
        ensures
            r is Err <==> args@.len() < 2,
            r matches Ok(c) ==> c.path_or_data@ == args@[1]@ && c.output_syntax == syntax_arg(
                args@,
            ),
    {
        if args.len() < 2 {
            return Err(
                "Not enough arguments passed, Expected format data_to_byte_array.exe <path_to_file or raw bytes> <optional output syntax>",
            );
        }
        let mut return_data = Self::default();
        return_data.path_or_data = args[1].clone();
        if args.len() >= 3 {
            return_data.output_syntax = OutputSyntax::from_string(&args[2]);
        }
        Ok(return_data)
    }

    /// The bytes of the input: `file_contents` where the input names a file and
    /// these were read from it, else the text of `path` byte for byte.
    pub fn get_byte_data(path: String, file_contents: Option<Vec<u8>>) -> (r: Vec<u8>)
        ensures
            r@ == input_bytes(path@, file_contents.deep_view()),
    {
        match file_contents {
            Some(c) => c,
            None => path.as_str().as_bytes_vec(),
        }
    }

    /// The configuration as two lines of text.
    pub fn to_string(&self) -> (r: String)
        ensures
            r@ == description(self.path_or_data@, self.output_syntax),
    {
        let mut out = String::new();
        out.append("path or data: ");
        out.append(self.path_or_data.as_str());
        out.append("\n");
        out.append("output syntax: ");
        out.append(self.output_syntax.to_string().as_str());
        out.append("\n");
        out
    }
}

/// An argument list without a syntax, and the same list with a token that names no
/// syntax, both select `Raw` and so render any bytes alike, as the bare list.
pub proof fn lemma_missing_or_unknown_syntax(args: Seq<String>, token: String, b: Seq<u8>)
    requires
        args.len() == 2,
        !names_a_syntax(token@),
    ensures
        syntax_arg(args) == OutputSyntax::Raw(RawFormatter),
        syntax_arg(args.push(token)) == OutputSyntax::Raw(RawFormatter),
        rendering(b, syntax_arg(args)) == rendering(b, syntax_arg(args.push(token))),
        rendering(b, syntax_arg(args)) == raw_list(b),
{
    lemma_unknown_token_is_raw(token@);
    assert(args.push(token)[2] == token);
}

} // verus!
