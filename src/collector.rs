use vstd::prelude::*;
use crate::cli::CollectArgs;

verus! {

/// Parameters of the stand-alone content collector.
#[derive(Debug)]
pub struct Cli {
    /// The path to the output file.
    pub output_file: String,
    /// Specific file or directory paths to ignore.
    pub ignore: Vec<String>,
    /// File or directory names to ignore wherever they are.
    pub ignore_all: Vec<String>,
    /// The root directory to start scanning from.
    pub root: String,
}

fn prefixed(prefix: &str, s: &String) -> (r: String)
    ensures
        r@ == prefix@ + s@,
{
    let mut r = String::from_str(prefix);
    r.append(s.as_str());
    r
}

/// The override rules that keep entries out of a collection, each starting
/// with `!` (an ignore rule, not a whitelist), in this order: every name of
/// `ignore_all` wherever it lies (`!**/name`), every path of `ignore`
/// (`!path`), and the output file itself.
pub fn ignore_overrides(args: &CollectArgs) -> (r: Vec<String>)
    ensures
        r@.len() == args.ignore_all@.len() + args.ignore@.len() + 1,
        forall|i: int| 0 <= i < args.ignore_all@.len() ==> (#[trigger] r@[i])@ == "!**/"@ + args.ignore_all@[i]@,
        forall|j: int| 0 <= j < args.ignore@.len()
            ==> (#[trigger] r@[args.ignore_all@.len() + j])@ == "!"@ + args.ignore@[j]@,
        r@[(args.ignore_all@.len() + args.ignore@.len()) as int]@ == "!"@ + args.output_file@,
{
    let mut out: Vec<String> = Vec::new();
    let mut i: usize = 0;
    while i < args.ignore_all.len()
        invariant
            i <= args.ignore_all@.len(),
            out@.len() == i,
            forall|k: int| 0 <= k < i ==> (#[trigger] out@[k])@ == "!**/"@ + args.ignore_all@[k]@,
        decreases args.ignore_all@.len() - i,
    {
        out.push(prefixed("!**/", &args.ignore_all[i]));
        i = i + 1;
    }
    let a = args.ignore_all.len();
    let mut j: usize = 0;
    while j < args.ignore.len()
        invariant
            a == args.ignore_all@.len(),
            j <= args.ignore@.len(),
            out@.len() == a + j,
            forall|k: int| 0 <= k < a ==> (#[trigger] out@[k])@ == "!**/"@ + args.ignore_all@[k]@,
            forall|k: int| 0 <= k < j ==> (#[trigger] out@[a + k])@ == "!"@ + args.ignore@[k]@,
        decreases args.ignore@.len() - j,
    {
        out.push(prefixed("!", &args.ignore[j]));
        proof {
            assert(out@[a + j as int]@ == "!"@ + args.ignore@[j as int]@);
        }
        j = j + 1;
    }
    out.push(prefixed("!", &args.output_file));
    out
}

} // verus!
