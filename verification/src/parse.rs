use vstd::prelude::*;

use crate::config::Config;
use vstd::string::StrSliceExecFns;
use vstd::string::StringExecFns;

verus! {

/// A token that asks for the usage text.
pub open spec fn is_help_token(t: Seq<char>) -> bool {
    t == "--help"@ || t == "-h"@
}

/// The token that asks for append mode.
pub open spec fn is_append_token(t: Seq<char>) -> bool {
    t == "-a"@
}

/// A token that looks like an option: it starts with a dash.
pub open spec fn is_option_token(t: Seq<char>) -> bool {
    t.len() > 0 && t[0] == '-'
}

/// An option token that is neither of the two recognized flags. Such a
/// token earns a warning and is otherwise ignored.
pub open spec fn is_unknown_option(t: Seq<char>) -> bool {
    is_option_token(t) && !is_help_token(t) && !is_append_token(t)
}

/// A token taken as an output file path: anything that does not start with
/// a dash.
pub open spec fn is_file_token(t: Seq<char>) -> bool {
    !is_option_token(t)
}

/// The file-path tokens of `args`, in order, duplicates kept.
pub open spec fn file_tokens(args: Seq<Seq<char>>) -> Seq<Seq<char>>
    decreases args.len(),
{
    if args.len() == 0 {
        Seq::empty()
    } else if is_file_token(args.last()) {
        file_tokens(args.drop_last()).push(args.last())
    } else {
        file_tokens(args.drop_last())
    }
}

/// The unknown options of `args`, in order, duplicates kept.
pub open spec fn unknown_options(args: Seq<Seq<char>>) -> Seq<Seq<char>>
    decreases args.len(),
{
    if args.len() == 0 {
        Seq::empty()
    } else if is_unknown_option(args.last()) {
        unknown_options(args.drop_last()).push(args.last())
    } else {
        unknown_options(args.drop_last())
    }
}

/// Whether some token of `args` is the help flag.
pub open spec fn has_help_token(args: Seq<Seq<char>>) -> bool
    decreases args.len(),
{
    args.len() > 0 && (has_help_token(args.drop_last()) || is_help_token(args.last()))
}

/// Whether some token of `args` is the append flag.
pub open spec fn has_append_token(args: Seq<Seq<char>>) -> bool
    decreases args.len(),
{
    args.len() > 0 && (has_append_token(args.drop_last()) || is_append_token(args.last()))
}

/// The result of parsing: the configuration, and the unknown options that
/// deserve a warning on the error stream.
pub struct Parsed {
    pub config: Config,
    pub unknown: Vec<String>,
}

/// Whether `s` starts with a dash.
fn starts_with_dash(s: &String) -> (r: bool)
    ensures
        r == is_option_token(s@),
{
    let t: &str = s.as_str();
    if t.unicode_len() == 0 {
        false
    } else {
        t.get_char(0) == '-'
    }
}

/// Parse the raw process argument list. The first entry is the program name
/// and is skipped. `--help` and `-h` set the help flag, `-a` sets the append
/// flag; flags are idempotent. Any other token starting with a dash is an
/// unknown option: it is collected for a warning and ignored, and parsing
/// continues. Every remaining token is an output file path, kept in order
/// with duplicates.
pub fn parse_args(args: &Vec<String>) -> (r: Parsed)
    requires
        args@.len() >= 1,
    ensures
        r.config.help == has_help_token(args.deep_view().skip(1)),
        r.config.append == has_append_token(args.deep_view().skip(1)),
        r.config.files.deep_view() == file_tokens(args.deep_view().skip(1)),
        r.unknown.deep_view() == unknown_options(args.deep_view().skip(1)),
{
    let ghost toks = args.deep_view();
    let help_long: String = String::from_str("--help");
    let help_short: String = String::from_str("-h");
    let append_flag: String = String::from_str("-a");
    let mut config = Config::new();
    let mut unknown: Vec<String> = Vec::new();
    let mut i: usize = 1;
    while i < args.len()
        invariant
            1 <= i <= args@.len(),
            toks == args.deep_view(),
            toks.len() == args@.len(),
            help_long@ == "--help"@,
            help_short@ == "-h"@,
            append_flag@ == "-a"@,
            config.help == has_help_token(toks.subrange(1, i as int)),
            config.append == has_append_token(toks.subrange(1, i as int)),
            config.files.deep_view() == file_tokens(toks.subrange(1, i as int)),
            unknown.deep_view() == unknown_options(toks.subrange(1, i as int)),
        decreases args@.len() - i,
    {
        let arg = &args[i];
        proof {
            reveal_strlit("--help");
            reveal_strlit("-h");
            reveal_strlit("-a");
            // The three flag literals differ pairwise; the character facts
            // below let the solver tell "-h" and "-a" apart.
            assert("-h"@[1] == 'h' && "-a"@[1] == 'a');
            assert(toks[i as int] == args@[i as int]@);
            assert(toks.subrange(1, i + 1) =~= toks.subrange(1, i as int).push(toks[i as int]));
            assert(toks.subrange(1, i + 1).drop_last() =~= toks.subrange(1, i as int));
        }
        if *arg == help_long || *arg == help_short {
            config.help = true;
        } else if *arg == append_flag {
            config.append = true;
        } else if starts_with_dash(arg) {
            unknown.push(arg.clone());
            proof {
                assert(unknown.deep_view() =~= unknown_options(toks.subrange(1, i + 1)));
            }
        } else {
            config.files.push(arg.clone());
            proof {
                assert(config.files.deep_view() =~= file_tokens(toks.subrange(1, i + 1)));
            }
        }
        i += 1;
    }
    proof {
        assert(toks.subrange(1, toks.len() as int) =~= toks.skip(1));
    }
    Parsed { config, unknown }
}

/// The help flag counts wherever it stands in the argument list:
/// `has_help_token` holds exactly when some token is a help token.
pub proof fn lemma_help_anywhere(args: Seq<Seq<char>>)
    ensures
        has_help_token(args) <==> exists|i: int|
            0 <= i < args.len() && is_help_token(args[i]),
    decreases args.len(),
{
    if args.len() > 0 {
        let front = args.drop_last();
        lemma_help_anywhere(front);
        if has_help_token(args) {
            if is_help_token(args.last()) {
                assert(is_help_token(args[args.len() - 1]));
            } else {
                let i = choose|i: int| 0 <= i < front.len() && is_help_token(front[i]);
                assert(is_help_token(args[i]));
            }
        }
        if exists|i: int| 0 <= i < args.len() && is_help_token(args[i]) {
            let i = choose|i: int| 0 <= i < args.len() && is_help_token(args[i]);
            if i < args.len() - 1 {
                assert(is_help_token(front[i]));
            }
        }
    }
}

/// Option tokens never enter the file list: every entry of `file_tokens`
/// is a plain file-path token. In particular no unknown option appears
/// among the files.
pub proof fn lemma_options_not_in_files(args: Seq<Seq<char>>)
    ensures
        forall|i: int|
            0 <= i < file_tokens(args).len() ==> is_file_token(
                #[trigger] file_tokens(args)[i],
            ),
    decreases args.len(),
{
    if args.len() > 0 {
        let front = args.drop_last();
        lemma_options_not_in_files(front);
        if is_file_token(args.last()) {
            let rec = file_tokens(front);
            assert forall|i: int|
                0 <= i < file_tokens(args).len() implies is_file_token(
                file_tokens(args)[i],
            ) by {
                if i < rec.len() {
                    assert(file_tokens(args)[i] == rec[i]);
                } else {
                    assert(file_tokens(args)[i] == args.last());
                }
            }
        }
    }
}

/// An unknown option does not stop parsing: with it removed from the
/// argument list, the very same flags and the very same file list come
/// out, so every valid token after it is still honoured.
pub proof fn lemma_unknown_option_skipped(
    before: Seq<Seq<char>>,
    bad: Seq<char>,
    after: Seq<Seq<char>>,
)
    requires
        is_unknown_option(bad),
    ensures
        file_tokens(before.push(bad) + after) == file_tokens(before + after),
        has_help_token(before.push(bad) + after) == has_help_token(before + after),
        has_append_token(before.push(bad) + after) == has_append_token(before + after),
    decreases after.len(),
{
    if after.len() == 0 {
        assert(before.push(bad) + after =~= before.push(bad));
        assert(before + after =~= before);
        assert(before.push(bad).drop_last() =~= before);
    } else {
        lemma_unknown_option_skipped(before, bad, after.drop_last());
        assert((before.push(bad) + after).drop_last() =~= before.push(bad) + after.drop_last());
        assert((before + after).drop_last() =~= before + after.drop_last());
        assert((before.push(bad) + after).last() == after.last());
        assert((before + after).last() == after.last());
    }
}

} // verus!
