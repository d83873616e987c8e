//! What the media player is started with.

use crate::resolver::texts;
use vstd::prelude::*;
use vstd::string::StringExecFns;

verus! {

/// The program that plays the media.
pub const PLAYER_PROGRAM: &'static str = "mpv";

/// The argument that asks the player for the full screen.
pub const FULLSCREEN_FLAG: &'static str = "-fs";

/// The arguments of the player: the caller's own, as they came, then the
/// full-screen flag, then the address to play.
pub open spec fn player_args_spec(extra: Option<Seq<Seq<char>>>, url: Seq<char>) -> Seq<Seq<char>> {
    let own = match extra {
        Some(args) => args,
        None => Seq::empty(),
    };
    own.push(FULLSCREEN_FLAG@).push(url)
}

/// The caller's own arguments as sequences of characters, if there are any.
pub open spec fn extra_texts(extra: Option<Vec<String>>) -> Option<Seq<Seq<char>>> {
    match extra {
        Some(args) => Some(texts(args@)),
        None => None,
    }
}

/// The arguments with which the player is started for `url`. The caller's
/// own arguments are handed on untouched and unread.
pub fn player_args(extra: &Option<Vec<String>>, url: String) -> (args: Vec<String>)
    ensures
        texts(args@) == player_args_spec(extra_texts(*extra), url@),
{
    let mut args: Vec<String> = Vec::new();
    if let Some(own) = extra {
        let mut i: usize = 0;
        while i < own.len()
            invariant
                i <= own.len(),
                texts(args@) == texts(own@).take(i as int),
            decreases own.len() - i,
        {
            let ghost before = args@;
            args.push(own[i].clone());
            assert(texts(args@) =~= texts(before).push(own@[i as int]@));
            assert(texts(own@).take(i + 1) =~= texts(own@).take(i as int).push(own@[i as int]@));
            i = i + 1;
        }
        assert(texts(own@).take(own.len() as int) =~= texts(own@));
    } else {
        assert(texts(args@) =~= Seq::<Seq<char>>::empty());
    }
    let ghost own_args = args@;
    args.push(String::from_str(FULLSCREEN_FLAG));
    args.push(url);
    assert(texts(args@) =~= texts(own_args).push(FULLSCREEN_FLAG@).push(url@));
    args
}

} // verus!
