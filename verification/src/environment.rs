//! Values read from a container's declared environment.
use vstd::prelude::*;
use crate::text::{chars_before, find_char, same_text, slice_text, to_chars, views};

verus! {

/// The value that one `KEY=VALUE` entry gives to `key`: what follows the
/// first `=`, where what stands before it is `key`.
pub open spec fn entry_value(entry: Seq<char>, key: Seq<char>) -> Option<Seq<char>> {
    let k = chars_before(entry, '=');
    if k < entry.len() && entry.take(k as int) == key {
        Some(entry.skip(k as int + 1))
    } else {
        None
    }
}

/// The value of `key` in an environment: that of the first entry that gives
/// it one, and the empty text where none does.
pub open spec fn value_in(env: Seq<Seq<char>>, key: Seq<char>) -> Seq<char>
    decreases env.len(),
{
    if env.len() == 0 {
        Seq::empty()
    } else {
        match entry_value(env[0], key) {
            Some(v) => v,
            None => value_in(env.drop_first(), key),
        }
    }
}

/// The value of `key` in `env`, empty where `env` does not set it.
pub fn env_value(env: &Vec<String>, key: &str) -> (r: String)
    ensures
        r@ == value_in(views(env@), key@),
{
    let mut i: usize = 0;
    assert(views(env@).skip(0) =~= views(env@));
    while i < env.len()
        invariant
            i <= env.len(),
            value_in(views(env@), key@) == value_in(views(env@).skip(i as int), key@),
        decreases env.len() - i,
    {
        let ghost rest = views(env@).skip(i as int);
        assert(rest.drop_first() =~= views(env@).skip(i + 1));
        let entry = to_chars(env[i].as_str());
        let n = entry.len();
        assert(entry@.subrange(0, n as int) =~= entry@);
        let k = find_char(&entry, 0, n, '=');
        if k < n {
            let name = slice_text(&entry, 0, k);
            if same_text(name.as_str(), key) {
                let value = slice_text(&entry, k + 1, n);
                return value;
            }
        }
        i += 1;
    }
    String::new()
}

} // verus!
