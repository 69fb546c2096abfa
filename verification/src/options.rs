//! The options that the command line gives.

use crate::matching::{filter_pattern, regex_is_valid, IdentityFilter};
use crate::text::same_text;
use vstd::prelude::*;

verus! {

/// The argument that announces the pattern of the identity filter.
pub const PLAYER_NAME_REGEX_ARG: &'static str = "--player-name-regex";

/// The options of a run.
#[derive(Clone, Debug)]
pub struct MainOptions {
    /// Only facts of players whose name matches are honoured; with no
    /// filter, those of every player.
    pub player_name_regex: Option<IdentityFilter>,
}

/// Why a command line was turned down.
#[derive(Clone, Copy, Debug, PartialEq, Eq, Structural)]
pub enum ArgsError {
    /// The argument that announces a pattern is the last one.
    MissingPattern,
    /// The pattern is no valid regular expression.
    InvalidPattern,
}

/// The filter pattern that the arguments from position `from` on give,
/// where `so_far` is the pattern given before them. Each pattern replaces
/// the one before it; arguments of any other kind are passed over.
pub open spec fn pattern_from_args(args: Seq<Seq<char>>, from: int, so_far: Option<Seq<char>>) -> Result<
    Option<Seq<char>>,
    ArgsError,
>
    decreases args.len() - from,
{
    if from < 0 || from >= args.len() {
        Ok(so_far)
    } else if args[from] == PLAYER_NAME_REGEX_ARG@ {
        if from + 1 >= args.len() {
            Err(ArgsError::MissingPattern)
        } else if !regex_is_valid(args[from + 1]) {
            Err(ArgsError::InvalidPattern)
        } else {
            pattern_from_args(args, from + 2, Some(args[from + 1]))
        }
    } else {
        pattern_from_args(args, from + 1, so_far)
    }
}

/// Reads the options from the arguments of the program, the first of which
/// is the program's own name.
pub fn process_args(args: &Vec<String>) -> (options: Result<MainOptions, ArgsError>)
    ensures
        match options {
            Ok(o) => pattern_from_args(args.deep_view(), 1, None) == Ok::<
                Option<Seq<char>>,
                ArgsError,
            >(filter_pattern(o.player_name_regex)),
            Err(e) => pattern_from_args(args.deep_view(), 1, None) == Err::<
                Option<Seq<char>>,
                ArgsError,
            >(e),
        },
{
    let ghost all = args.deep_view();
    let mut player_name_regex: Option<IdentityFilter> = None;
    let mut i: usize = 1;
    assert(all.len() == args@.len());
    while i < args.len()
        invariant
            1 <= i,
            all == args.deep_view(),
            all.len() == args@.len(),
            pattern_from_args(all, 1, None) == pattern_from_args(
                all,
                i as int,
                filter_pattern(player_name_regex),
            ),
        decreases args.len() - i,
    {
        assert(all[i as int] == args@[i as int]@);
        if same_text(args[i].as_str(), PLAYER_NAME_REGEX_ARG) {
            if i + 1 >= args.len() {
                return Err(ArgsError::MissingPattern);
            }
            assert(all[i + 1] == args@[i + 1]@);
            match IdentityFilter::new(args[i + 1].as_str()) {
                None => {
                    return Err(ArgsError::InvalidPattern);
                },
                Some(filter) => {
                    player_name_regex = Some(filter);
                },
            }
            i = i + 2;
        } else {
            i = i + 1;
        }
    }
    Ok(MainOptions { player_name_regex })
}

} // verus!
