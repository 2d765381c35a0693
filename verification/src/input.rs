use crate::downloader::PreferredResolution;
use crate::text::{chars_of, string_of, string_views, trim_of, trimmed};
use vstd::prelude::*;

verus! {

/// What the command line asks for.
pub struct InputArgs {
    pub url: String,
    pub keep_alive: bool,
    pub resolution: Option<PreferredResolution>,
}

/// What a command line asks for, as plain values.
pub ghost struct Input {
    pub url: Seq<char>,
    pub keep_alive: bool,
    pub resolution: Option<PreferredResolution>,
}

impl View for InputArgs {
    type V = Input;

    open spec fn view(&self) -> Input {
        Input { url: self.url@, keep_alive: self.keep_alive, resolution: self.resolution }
    }
}

/// What is asked for when no argument says anything.
pub open spec fn nothing_asked() -> Input {
    Input { url: Seq::<char>::empty(), keep_alive: false, resolution: None }
}

/// What the arguments from position `at` on add to `so_far`. The input
/// option takes the argument after it, trimmed, as the address; where it is
/// the last argument it says nothing. Of options that are given more than
/// once the last counts, and unknown arguments are passed over.
pub open spec fn parsed(args: Seq<Seq<char>>, at: int, so_far: Input) -> Input
    decreases args.len() - at,
{
    if at < 0 || at >= args.len() {
        so_far
    } else if (args[at] == "--input"@ || args[at] == "-i"@) && at + 1 < args.len() {
        parsed(args, at + 2, Input { url: trimmed(args[at + 1]), ..so_far })
    } else if args[at] == "--keep-alive"@ || args[at] == "-a"@ {
        parsed(args, at + 1, Input { keep_alive: true, ..so_far })
    } else if args[at] == "--high"@ || args[at] == "-h"@ {
        parsed(args, at + 1, Input { resolution: Some(PreferredResolution::High), ..so_far })
    } else if args[at] == "--medium"@ || args[at] == "-m"@ {
        parsed(args, at + 1, Input { resolution: Some(PreferredResolution::Medium), ..so_far })
    } else if args[at] == "--low"@ || args[at] == "-l"@ {
        parsed(args, at + 1, Input { resolution: Some(PreferredResolution::Low), ..so_far })
    } else {
        parsed(args, at + 1, so_far)
    }
}

/// Whether `arg` is the option with these two spellings.
pub fn is_option(arg: &String, long: &str, short: &str) -> (same: bool)
    ensures
        same == (arg@ == long@ || arg@ == short@),
{
    *arg == long.to_owned() || *arg == short.to_owned()
}

/// Reads the command line. The first argument, the program's name, does not
/// count.
pub fn parse_input(args: &Vec<String>) -> (input: InputArgs)
    ensures
        input@ == parsed(string_views(args@), 1, nothing_asked()),
{
    let mut input = InputArgs { url: String::new(), keep_alive: false, resolution: None };
    let ghost all = string_views(args@);
    let mut i: usize = 1;
    while i < args.len()
        invariant
            1 <= i,
            all == string_views(args@),
            parsed(all, 1, nothing_asked()) == parsed(all, i as int, input@),
        decreases args.len() - i,
    {
        assert(all[i as int] == args@[i as int]@);
        if is_option(&args[i], "--input", "-i") && i < args.len() - 1 {
            assert(all[i as int + 1] == args@[i as int + 1]@);
            input.url = string_of(&trim_of(&chars_of(args[i + 1].as_str())));
            i += 1;
        } else if is_option(&args[i], "--keep-alive", "-a") {
            input.keep_alive = true;
        } else if is_option(&args[i], "--high", "-h") {
            input.resolution = Some(PreferredResolution::High);
        } else if is_option(&args[i], "--medium", "-m") {
            input.resolution = Some(PreferredResolution::Medium);
        } else if is_option(&args[i], "--low", "-l") {
            input.resolution = Some(PreferredResolution::Low);
        }
        i += 1;
    }
    input
}

/// Whether the command line asks for anything: it holds one of the short
/// options for an address or for staying alive.
pub fn asks_for_work(args: &Vec<String>) -> (asked: bool)
    ensures
        asked == (string_views(args@).contains("-a"@) || string_views(args@).contains("-i"@)),
{
    let mut i: usize = 0;
    while i < args.len()
        invariant
            i <= args.len(),
            forall|k: int| 0 <= k < i ==> string_views(args@)[k] != "-a"@ && string_views(args@)[k] != "-i"@,
        decreases args.len() - i,
    {
        assert(string_views(args@)[i as int] == args@[i as int]@);
        if is_option(&args[i], "-a", "-i") {
            return true;
        }
        i += 1;
    }
    false
}

} // verus!
