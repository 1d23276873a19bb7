use vstd::prelude::*;

verus! {

/// The fixed usage text: four lines, each ending in a newline.
pub open spec fn usage_text() -> Seq<char> {
    "Usage: tee [-a] [-h|--help] [file ...]\n  -a          Append to any file listed rather than truncating\n  -h  --help  This help\n  <file>      Zero or more files to write the output to\n"@
}

/// The usage text printed on standard output when the help flag is set.
pub fn help_text() -> (r: &'static str)
    ensures
        r@ == usage_text(),
{
    "Usage: tee [-a] [-h|--help] [file ...]\n  -a          Append to any file listed rather than truncating\n  -h  --help  This help\n  <file>      Zero or more files to write the output to\n"
}

} // verus!
