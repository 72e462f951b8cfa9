//! Reading a player's position out of the remote console's reply.
use vstd::prelude::*;
use crate::model::{player_views, PlayerInfo, PlayerInfoView, Position, PositionView};
use crate::decimal::{all_digits, is_digit};
use crate::text::{
    chars_before, find_char, lemma_trim_end_is, lemma_leading_run_is, lemma_trim_start,
    slice_text, split_on, split_chars, to_chars, trim_end, trim_start,
};

verus! {

/// Seconds within which the console must be reached and the sign-in
/// answered.
pub const SIGN_IN_TIMEOUT_SECONDS: u64 = 3;

/// Seconds within which the console must answer one command.
pub const COMMAND_TIMEOUT_SECONDS: u64 = 2;

/// Whether `c` is a sign.
pub open spec fn is_sign(c: char) -> bool {
    c == '+' || c == '-'
}

/// Whether `c` is a letter of the basic Latin alphabet.
pub open spec fn is_letter(c: char) -> bool {
    ('a' <= c <= 'z') || ('A' <= c <= 'Z')
}

/// `s` without a leading sign.
pub open spec fn unsigned(s: Seq<char>) -> Seq<char> {
    if s.len() > 0 && is_sign(s[0]) {
        s.skip(1)
    } else {
        s
    }
}

/// Where the exponent mark of a numeral stands: at its first `e` or `E`, or
/// at its end where it has none.
pub open spec fn exponent_at(s: Seq<char>) -> nat {
    if chars_before(s, 'e') <= chars_before(s, 'E') {
        chars_before(s, 'e')
    } else {
        chars_before(s, 'E')
    }
}

/// Whether `s` is digits around at most one point, with a digit somewhere.
pub open spec fn is_mantissa(s: Seq<char>) -> bool {
    let dot = chars_before(s, '.');
    if dot >= s.len() {
        s.len() > 0 && all_digits(s)
    } else {
        s.len() > 1 && all_digits(s.take(dot as int)) && all_digits(s.skip(dot as int + 1))
    }
}

/// Whether `s` is a decimal numeral: an optional sign, digits with an
/// optional point among them, and an optional exponent of `e` or `E`, an
/// optional sign and digits.
pub open spec fn is_number(s: Seq<char>) -> bool {
    let body = unsigned(s);
    let e = exponent_at(body);
    if e >= body.len() {
        is_mantissa(body)
    } else {
        let power = unsigned(body.skip(e as int + 1));
        is_mantissa(body.take(e as int)) && power.len() > 0 && all_digits(power)
    }
}

/// A field without the blanks around it and without the one letter that tags
/// its type, if it ends in one.
pub open spec fn untagged(field: Seq<char>) -> Seq<char> {
    let t = trim_end(trim_start(field, ' '), ' ');
    if t.len() > 0 && is_letter(t.last()) {
        t.drop_last()
    } else {
        t
    }
}

/// The fields of the first bracket span of a reply: what stands between the
/// first `[` and the first `]` after it, split at commas. `None` where the
/// reply has no such span.
pub open spec fn bracket_fields(reply: Seq<char>) -> Option<Seq<Seq<char>>> {
    let open = chars_before(reply, '[');
    if open >= reply.len() {
        None
    } else {
        let rest = reply.skip(open as int + 1);
        let close = chars_before(rest, ']');
        if close >= rest.len() {
            None
        } else {
            Some(split_on(rest.take(close as int), ','))
        }
    }
}

/// The position that a reply tells: its bracket span must hold exactly three
/// fields, each a numeral once blanks and type tag are gone.
pub open spec fn position_told(reply: Seq<char>) -> Option<PositionView> {
    match bracket_fields(reply) {
        Some(fields) => {
            if fields.len() == 3 && is_number(untagged(fields[0])) && is_number(
                untagged(fields[1]),
            ) && is_number(untagged(fields[2])) {
                Some(
                    PositionView {
                        x: untagged(fields[0]),
                        y: untagged(fields[1]),
                        z: untagged(fields[2]),
                    },
                )
            } else {
                None
            }
        },
        None => None,
    }
}

/// A reply whose bracket span holds fewer or more than three fields tells no
/// position, and neither does one without a bracket span.
pub proof fn lemma_position_needs_three_fields(reply: Seq<char>)
    ensures
        bracket_fields(reply) is None ==> position_told(reply) is None,
        bracket_fields(reply) is Some && bracket_fields(reply)->0.len() != 3 ==> position_told(
            reply,
        ) is None,
        position_told(reply) is Some ==> is_number(position_told(reply)->0.x) && is_number(
            position_told(reply)->0.y,
        ) && is_number(position_told(reply)->0.z),
{
}

fn digits_in(v: &Vec<char>, from: usize, to: usize) -> (r: bool)
    requires
        from <= to <= v.len(),
    ensures
        r == all_digits(v@.subrange(from as int, to as int)),
{
    let mut i: usize = from;
    while i < to
        invariant
            from <= i <= to <= v.len(),
            forall|j: int| from <= j < i ==> is_digit(#[trigger] v@[j]),
        decreases to - i,
    {
        if !('0' <= v[i] && v[i] <= '9') {
            assert(v@.subrange(from as int, to as int)[i - from] == v@[i as int]);
            return false;
        }
        i += 1;
    }
    true
}

fn mantissa_in(v: &Vec<char>, from: usize, to: usize) -> (r: bool)
    requires
        from <= to <= v.len(),
    ensures
        r == is_mantissa(v@.subrange(from as int, to as int)),
{
    let ghost s = v@.subrange(from as int, to as int);
    let dot = find_char(v, from, to, '.');
    if dot >= to {
        to > from && digits_in(v, from, to)
    } else {
        assert(s.take(dot - from) =~= v@.subrange(from as int, dot as int));
        assert(s.skip(dot - from + 1) =~= v@.subrange(dot + 1, to as int));
        to - from > 1 && digits_in(v, from, dot) && digits_in(v, dot + 1, to)
    }
}

fn skip_sign(v: &Vec<char>, from: usize, to: usize) -> (r: usize)
    requires
        from <= to <= v.len(),
    ensures
        from <= r <= to,
        v@.subrange(r as int, to as int) == unsigned(v@.subrange(from as int, to as int)),
{
    if from < to && (v[from] == '+' || v[from] == '-') {
        from + 1
    } else {
        from
    }
}

fn number_in(v: &Vec<char>, from: usize, to: usize) -> (r: bool)
    requires
        from <= to <= v.len(),
    ensures
        r == is_number(v@.subrange(from as int, to as int)),
{
    let start = skip_sign(v, from, to);
    let ghost body = v@.subrange(start as int, to as int);
    let lower = find_char(v, start, to, 'e');
    let upper = find_char(v, start, to, 'E');
    let e: usize = if lower <= upper {
        lower
    } else {
        upper
    };
    if e >= to {
        mantissa_in(v, start, to)
    } else {
        assert(body.take(e - start) =~= v@.subrange(start as int, e as int));
        assert(body.skip(e - start + 1) =~= v@.subrange(e + 1, to as int));
        let power = skip_sign(v, e + 1, to);
        mantissa_in(v, start, e) && power < to && digits_in(v, power, to)
    }
}

/// The bounds of a field once blanks and type tag are gone.
fn untag(v: &Vec<char>) -> (r: (usize, usize))
    ensures
        r.0 <= r.1 <= v.len(),
        v@.subrange(r.0 as int, r.1 as int) == untagged(v@),
{
    let n = v.len();
    let mut a: usize = 0;
    while a < n && v[a] == ' '
        invariant
            a <= n == v.len(),
            forall|i: int| 0 <= i < a ==> v@[i] == ' ',
        decreases n - a,
    {
        a += 1;
    }
    proof {
        lemma_leading_run_is(v@, ' ', a as nat);
        lemma_trim_start(v@, ' ');
    }
    let ghost t = v@.skip(a as int);
    let mut b: usize = n;
    while b > a && v[b - 1] == ' '
        invariant
            a <= b <= n == v.len(),
            forall|i: int| b <= i < n ==> v@[i] == ' ',
        decreases b,
    {
        b -= 1;
    }
    proof {
        lemma_trim_end_is(t, ' ', (b - a) as nat);
    }
    let c = if b > a {
        v[b - 1]
    } else {
        ' '
    };
    if b > a && (('a' <= c && c <= 'z') || ('A' <= c && c <= 'Z')) {
        (a, (b - 1) as usize)
    } else {
        (a, b)
    }
}

/// The numeral of one field, if the field holds one.
fn field_number(field: &str) -> (r: Option<String>)
    ensures
        match r {
            Some(t) => is_number(untagged(field@)) && t@ == untagged(field@),
            None => !is_number(untagged(field@)),
        },
{
    let v = to_chars(field);
    let (a, b) = untag(&v);
    if number_in(&v, a, b) {
        Some(slice_text(&v, a, b))
    } else {
        None
    }
}

/// The position that a console reply tells, if it tells one.
pub fn parse_position(reply: &str) -> (r: Option<Position>)
    ensures
        match r {
            Some(p) => position_told(reply@) == Some(p@),
            None => position_told(reply@) is None,
        },
{
    let v = to_chars(reply);
    let n = v.len();
    assert(v@.subrange(0, n as int) =~= v@);
    let open = find_char(&v, 0, n, '[');
    if open >= n {
        return None;
    }
    let close = find_char(&v, open + 1, n, ']');
    if close >= n {
        return None;
    }
    assert(v@.skip(open + 1).take(close - open - 1) =~= v@.subrange(open + 1, close as int));
    let fields = split_chars(&v, open + 1, close, ',');
    if fields.len() != 3 {
        return None;
    }
    let x = match field_number(fields[0].as_str()) {
        Some(t) => t,
        None => {
            return None;
        },
    };
    let y = match field_number(fields[1].as_str()) {
        Some(t) => t,
        None => {
            return None;
        },
    };
    let z = match field_number(fields[2].as_str()) {
        Some(t) => t,
        None => {
            return None;
        },
    };
    Some(Position { x, y, z })
}

/// Whether the console is worth asking: only where there are players to ask
/// after and a secret to sign in with.
pub open spec fn console_needed(players: Seq<PlayerInfoView>, secret: Seq<char>) -> bool {
    players.len() > 0 && secret.len() > 0
}

/// Whether the console is worth asking.
pub fn needs_console(players: &Vec<PlayerInfo>, secret: &str) -> (r: bool)
    ensures
        r == console_needed(player_views(players@), secret@),
{
    players.len() > 0 && !secret.is_empty()
}

/// The command that asks the console where a player stands.
pub open spec fn query_for(name: Seq<char>) -> Seq<char> {
    "data get entity "@ + name + " Pos"@
}

/// The command that asks the console where a player stands.
pub fn position_query(name: &str) -> (r: String)
    ensures
        r@ == query_for(name@),
{
    let mut r: String = "data get entity ".to_owned();
    r.append(name);
    r.append(" Pos");
    r
}

/// The players after the console answered for the player at `index`: that
/// player has the position that the reply tells, if it tells one; nothing
/// else changes.
pub open spec fn with_reply(
    players: Seq<PlayerInfoView>,
    index: int,
    reply: Seq<char>,
) -> Seq<PlayerInfoView> {
    if 0 <= index < players.len() && position_told(reply) is Some {
        players.update(
            index,
            PlayerInfoView { name: players[index].name, position: position_told(reply) },
        )
    } else {
        players
    }
}

/// Takes the console's reply for the player at `index`. A reply that tells no
/// position, or an index past the list, changes nothing.
pub fn apply_reply(players: &mut Vec<PlayerInfo>, index: usize, reply: &str)
    ensures
        player_views(final(players)@) == with_reply(
            player_views(old(players)@),
            index as int,
            reply@,
        ),
{
    if index >= players.len() {
        return ;
    }
    match parse_position(reply) {
        Some(position) => {
            let name = players[index].name.clone();
            let updated = PlayerInfo { name, position: Some(position) };
            players.set(index, updated);
        },
        None => {},
    }
}

} // verus!
