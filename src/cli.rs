//! The command line: its arguments and the messages it prints.

use vstd::prelude::*;

verus! {

/// The input and output paths, where `args` (the program name first) holds
/// exactly two arguments after the program name.
pub fn parse_args(args: &Vec<String>) -> (r: Option<(String, String)>)
    ensures
        r is Some <==> args.len() == 3,
        r matches Some(paths) ==> paths.0@ == args[1]@ && paths.1@ == args[2]@,
{
    if args.len() != 3 {
        return None;
    }
    Some((args[1].clone(), args[2].clone()))
}

/// The usage line printed when the argument count is wrong.
pub fn usage_message(program: &str) -> (m: String)
    ensures
        m@ == "Usage: "@ + program@ + " <input_csv> <output_csv>"@,
{
    let mut m = String::from_str("Usage: ");
    m.append(program);
    m.append(" <input_csv> <output_csv>");
    m
}

/// The error printed when the input file does not exist.
pub fn missing_input_message(input_path: &str) -> (m: String)
    ensures
        m@ == "Error: Input file '"@ + input_path@ + "' does not exist"@,
{
    let mut m = String::from_str("Error: Input file '");
    m.append(input_path);
    m.append("' does not exist");
    m
}

/// The confirmation printed after a successful run.
pub fn done_message(output_path: &str) -> (m: String)
    ensures
        m@ == "Deduplication complete. Unique lines written to "@ + output_path@,
{
    let mut m = String::from_str("Deduplication complete. Unique lines written to ");
    m.append(output_path);
    m
}

} // verus!
