//! Parsing of the slash commands typed into the client's input line.
//!
//! A command line is split into tokens at runs of ASCII spaces; the first
//! token names the command. A username given to the create command is the
//! remaining tokens joined by single spaces.
use vstd::prelude::*;

use vstd::utf8::encode_utf8;

verus! {

/// What the typed line asks the client to do.
pub enum ClientCommand {
    /// The line held nothing but spaces.
    NoCommand,
    /// Refresh the user list.
    FetchUsers,
    /// Create a user with this name (UTF-8 bytes of the joined tokens).
    CreateUser(Vec<u8>),
    /// Delete the user with this id.
    DeleteUser(usize),
    /// A delete command whose id does not parse as a number.
    InvalidUserId,
    /// Anything else.
    Unknown,
}

/// The longest space-free prefix of a byte sequence.
pub open spec fn token_prefix(s: Seq<u8>) -> Seq<u8>
    decreases s.len(),
{
    if s.len() == 0 || s[0] == 0x20 {
        Seq::<u8>::empty()
    } else {
        seq![s[0]] + token_prefix(s.drop_first())
    }
}

/// A token is never longer than its string, and never empty when the
/// string starts with a non-space.
pub proof fn lemma_token_prefix_len(s: Seq<u8>)
    ensures
        token_prefix(s).len() <= s.len(),
        s.len() > 0 && s[0] != 0x20 ==> token_prefix(s).len() >= 1,
    decreases s.len(),
{
    if s.len() > 0 && s[0] != 0x20 {
        lemma_token_prefix_len(s.drop_first());
    }
}

/// The space-separated tokens of a byte sequence, in order.
pub open spec fn spec_tokens(s: Seq<u8>) -> Seq<Seq<u8>>
    decreases s.len(),
    via spec_tokens_dec
{
    if s.len() == 0 {
        Seq::<Seq<u8>>::empty()
    } else if s[0] == 0x20 {
        spec_tokens(s.drop_first())
    } else {
        let t = token_prefix(s);
        seq![t] + spec_tokens(s.skip(t.len() as int))
    }
}

#[via_fn]
proof fn spec_tokens_dec(s: Seq<u8>) {
    lemma_token_prefix_len(s);
}

/// Tokens joined by single spaces.
pub open spec fn join_sp(ts: Seq<Seq<u8>>) -> Seq<u8>
    decreases ts.len(),
{
    if ts.len() == 0 {
        Seq::<u8>::empty()
    } else if ts.len() == 1 {
        ts[0]
    } else {
        ts[0] + seq![0x20u8] + join_sp(ts.drop_first())
    }
}

/// Whether every byte is an ASCII digit.
pub open spec fn all_digits(s: Seq<u8>) -> bool {
    forall|k: int| 0 <= k < s.len() ==> 0x30 <= #[trigger] s[k] <= 0x39
}

/// The number a digit string denotes, most significant digit first.
pub open spec fn dec_value(s: Seq<u8>) -> int
    decreases s.len(),
{
    if s.len() == 0 {
        0
    } else {
        dec_value(s.drop_last()) * 10 + (s.last() - 0x30)
    }
}

/// Law: decimal rendering is lossless — the digit string that renders a
/// number denotes that number again.
pub proof fn lemma_decimal_round_trip(n: nat)
    ensures
        dec_value(crate::text::spec_dec_bytes(n)) == n,
    decreases n,
{
    let bytes = crate::text::spec_dec_bytes(n);
    assert(bytes.len() >= 1) by {
        crate::text::lemma_dec_bytes_digits(n);
    }
    assert(dec_value(bytes) == dec_value(bytes.drop_last()) * 10 + (bytes.last() - 0x30));
    if n < 10 {
        assert(bytes =~= seq![(n + 0x30) as u8]);
        assert(bytes.drop_last() =~= Seq::<u8>::empty());
        assert(dec_value(bytes.drop_last()) == 0);
        assert(bytes.last() == (n + 0x30) as u8);
        assert(bytes.last() - 0x30 == n);
    } else {
        let d = (n % 10 + 0x30) as u8;
        assert(bytes =~= crate::text::spec_dec_bytes(n / 10) + seq![d]);
        assert(bytes.drop_last() =~= crate::text::spec_dec_bytes(n / 10));
        assert(bytes.last() == d);
        lemma_decimal_round_trip(n / 10);
        assert(dec_value(bytes.drop_last()) == n / 10);
        assert(bytes.last() - 0x30 == n % 10);
        assert(n == (n / 10) * 10 + n % 10) by (nonlinear_arith);
    }
}

/// The token that runs from the start of `s` to the first space (or the
/// end) at position `j`.
proof fn lemma_token_prefix_upto(s: Seq<u8>, j: int)
    requires
        0 <= j <= s.len(),
        forall|k: int| 0 <= k < j ==> s[k] != 0x20,
        j == s.len() || s[j] == 0x20,
    ensures
        token_prefix(s) == s.subrange(0, j),
    decreases j,
{
    if j == 0 {
        assert(token_prefix(s) =~= s.subrange(0, 0));
    } else {
        let rest = s.drop_first();
        lemma_token_prefix_upto(rest, j - 1);
        assert(seq![s[0]] + rest.subrange(0, j - 1) =~= s.subrange(0, j));
    }
}

/// Whether two byte slices hold the same bytes.
pub fn eq_bytes(a: &[u8], b: &[u8]) -> (r: bool)
    ensures
        r == (a@ == b@),
{
    if a.len() != b.len() {
        proof {
            assert(a@.len() != b@.len());
        }
        return false;
    }
    let mut i: usize = 0;
    while i < a.len()
        invariant
            i <= a@.len(),
            a@.len() == b@.len(),
            forall|j: int| 0 <= j < i ==> a@[j] == b@[j],
        decreases a@.len() - i,
    {
        if *vstd::slice::slice_index_get(a, i) != *vstd::slice::slice_index_get(b, i) {
            return false;
        }
        i = i + 1;
    }
    proof {
        assert(a@ =~= b@);
    }
    true
}

/// Split a byte string into its space-separated tokens, starting at `i`.
fn tokens_from(s: &[u8], i: usize) -> (r: Vec<Vec<u8>>)
    requires
        i <= s@.len(),
    ensures
        r@.map_values(|v: Vec<u8>| v@) == spec_tokens(s@.skip(i as int)),
    decreases s@.len() - i,
{
    let ghost tail = s@.skip(i as int);
    if i == s.len() {
        let r: Vec<Vec<u8>> = Vec::new();
        proof {
            assert(r@.map_values(|v: Vec<u8>| v@) =~= spec_tokens(tail));
        }
        return r;
    }
    if *vstd::slice::slice_index_get(s, i) == 0x20 {
        let r = tokens_from(s, i + 1);
        proof {
            assert(tail.drop_first() =~= s@.skip(i + 1 as int));
        }
        return r;
    }
    // Scan past the token that starts here.
    let mut j: usize = i + 1;
    while j < s.len() && *vstd::slice::slice_index_get(s, j) != 0x20
        invariant
            i < j <= s@.len(),
            forall|k: int| i <= k < j ==> s@[k] != 0x20,
        decreases s@.len() - j,
    {
        j = j + 1;
    }
    let token = vstd::slice::slice_to_vec(vstd::slice::slice_subrange(s, i, j));
    let mut rest = tokens_from(s, j);
    proof {
        lemma_token_prefix_upto(tail, j - i);
        assert(tail.subrange(0, j - i) =~= s@.subrange(i as int, j as int));
        assert(token_prefix(tail) == token@);
        assert(tail.skip(token_prefix(tail).len() as int) =~= s@.skip(j as int));
    }
    let mut out: Vec<Vec<u8>> = Vec::new();
    out.push(token);
    out.append(&mut rest);
    proof {
        assert(out@.map_values(|v: Vec<u8>| v@) =~= spec_tokens(tail));
    }
    out
}

/// Parse a digit string into a number. Fails exactly when the string is
/// empty, holds a non-digit, or denotes a number too large for `usize`.
pub fn parse_usize(t: &[u8]) -> (r: Option<usize>)
    ensures
        (t@.len() == 0 || !all_digits(t@) || dec_value(t@) > usize::MAX) <==> r is None,
        r is Some ==> r.unwrap() == dec_value(t@),
{
    if t.len() == 0 {
        return None;
    }
    let mut acc: usize = 0;
    let mut k: usize = 0;
    while k < t.len()
        invariant
            k <= t@.len(),
            all_digits(t@.subrange(0, k as int)),
            acc == dec_value(t@.subrange(0, k as int)),
        decreases t@.len() - k,
    {
        let ghost prefix = t@.subrange(0, k as int);
        let b = *vstd::slice::slice_index_get(t, k);
        if b < 0x30 || b > 0x39 {
            return None;
        }
        let d = (b - 0x30) as usize;
        if acc > usize::MAX / 10 || (acc == usize::MAX / 10 && d > usize::MAX % 10) {
            proof {
                let next = t@.subrange(0, k + 1 as int);
                assert(next.drop_last() =~= prefix);
                assert(dec_value(next) == acc * 10 + d);
                assert(acc * 10 + d > usize::MAX) by (nonlinear_arith)
                    requires
                        acc > usize::MAX / 10 || (acc == usize::MAX / 10 && d > usize::MAX % 10),
                        usize::MAX == (usize::MAX / 10) * 10 + (usize::MAX % 10),
                        d >= 0,
                ;
                if all_digits(t@) {
                    lemma_dec_value_extend(t@, k + 1 as int);
                }
            }
            return None;
        }
        proof {
            assert(acc * 10 + d <= usize::MAX) by (nonlinear_arith)
                requires
                    acc <= usize::MAX / 10,
                    acc == usize::MAX / 10 ==> d <= usize::MAX % 10,
                    d <= 9,
                    usize::MAX == (usize::MAX / 10) * 10 + (usize::MAX % 10),
            ;
        }
        acc = acc * 10 + d;
        k = k + 1;
        proof {
            let next = t@.subrange(0, k as int);
            assert(next.drop_last() =~= prefix);
            assert(acc == dec_value(next));
        }
    }
    proof {
        assert(t@.subrange(0, t@.len() as int) =~= t@);
    }
    Some(acc)
}

/// A digit string denotes a number, never a negative value.
proof fn lemma_dec_value_nonneg(s: Seq<u8>)
    requires
        all_digits(s),
    ensures
        dec_value(s) >= 0,
    decreases s.len(),
{
    if s.len() > 0 {
        assert(all_digits(s.drop_last()));
        lemma_dec_value_nonneg(s.drop_last());
        assert(dec_value(s) >= 0) by (nonlinear_arith)
            requires
                dec_value(s) == dec_value(s.drop_last()) * 10 + (s.last() - 0x30),
                dec_value(s.drop_last()) >= 0,
                s.last() >= 0x30,
        ;
    }
}

/// Extending a digit string never shrinks its value: the whole string
/// denotes at least what any prefix denotes.
proof fn lemma_dec_value_extend(s: Seq<u8>, i: int)
    requires
        0 <= i <= s.len(),
        all_digits(s),
    ensures
        dec_value(s) >= dec_value(s.subrange(0, i)),
    decreases s.len() - i,
{
    if i < s.len() {
        let shorter = s.subrange(0, i);
        let bigger = s.subrange(0, i + 1);
        assert(bigger.drop_last() =~= shorter);
        assert(all_digits(shorter));
        lemma_dec_value_nonneg(shorter);
        assert(dec_value(bigger) == dec_value(shorter) * 10 + (bigger.last() - 0x30));
        assert(dec_value(bigger) >= dec_value(shorter)) by (nonlinear_arith)
            requires
                dec_value(bigger) == dec_value(shorter) * 10 + (bigger.last() - 0x30),
                dec_value(shorter) >= 0,
                bigger.last() >= 0x30,
        ;
        lemma_dec_value_extend(s, i + 1);
        assert(s.subrange(0, s.len() as int) =~= s);
    } else {
        assert(s.subrange(0, s.len() as int) =~= s);
    }
}

/// Join tokens with single spaces.
fn join_tokens(ts: &Vec<Vec<u8>>, from: usize) -> (r: Vec<u8>)
    requires
        from <= ts@.len(),
    ensures
        r@ == join_sp(ts@.map_values(|v: Vec<u8>| v@).skip(from as int)),
    decreases ts@.len() - from,
{
    let ghost views = ts@.map_values(|v: Vec<u8>| v@);
    if from == ts.len() {
        let r: Vec<u8> = Vec::new();
        proof {
            assert(views.skip(from as int) =~= Seq::<Seq<u8>>::empty());
        }
        return r;
    }
    let mut out = crate::keywrap::clone_bytes(&ts[from]);
    if from + 1 == ts.len() {
        proof {
            assert(views.skip(from as int).len() == 1);
            assert(views.skip(from as int)[0] == views[from as int]);
        }
        return out;
    }
    out.push(0x20);
    let mut rest = join_tokens(ts, from + 1);
    out.append(&mut rest);
    proof {
        let tail = views.skip(from as int);
        assert(tail.len() >= 2);
        assert(tail[0] == views[from as int]);
        assert(tail.drop_first() =~= views.skip(from + 1 as int));
        assert(out@ =~= tail[0] + seq![0x20u8] + join_sp(tail.drop_first()));
    }
    out
}

/// Parse one typed line. Lines are split into space-separated tokens; the
/// recognized commands are the user-list fetch, user creation (the name is
/// the remaining tokens joined by single spaces), and user deletion by
/// numeric id.
pub fn parse_command(input: &String) -> (r: ClientCommand)
    ensures
        ({
            let toks = spec_tokens(encode_utf8(input@));
            if toks.len() == 0 {
                r is NoCommand
            } else if toks[0] == encode_utf8("/users"@) {
                r is FetchUsers
            } else if toks[0] == encode_utf8("/create_user"@) && toks.len() >= 2 {
                r matches ClientCommand::CreateUser(name) && name@ == join_sp(toks.drop_first())
            } else if toks[0] == encode_utf8("/delete_user"@) && toks.len() == 2 {
                if all_digits(toks[1]) && toks[1].len() >= 1 && dec_value(toks[1]) <= usize::MAX {
                    r matches ClientCommand::DeleteUser(id) && id == dec_value(toks[1])
                } else {
                    r is InvalidUserId
                }
            } else {
                r is Unknown
            }
        }),
{
    let bytes = input.as_str().as_bytes();
    let toks = tokens_from(bytes, 0);
    let ghost views = toks@.map_values(|v: Vec<u8>| v@);
    proof {
        assert(bytes@.skip(0) =~= bytes@);
    }
    if toks.len() == 0 {
        return ClientCommand::NoCommand;
    }
    proof {
        assert(views[0] == toks@[0]@);
    }
    if eq_bytes(toks[0].as_slice(), "/users".as_bytes()) {
        return ClientCommand::FetchUsers;
    }
    if toks.len() >= 2 && eq_bytes(toks[0].as_slice(), "/create_user".as_bytes()) {
        let name = join_tokens(&toks, 1);
        proof {
            assert(views.skip(1) =~= views.drop_first());
        }
        return ClientCommand::CreateUser(name);
    }
    if toks.len() == 2 && eq_bytes(toks[0].as_slice(), "/delete_user".as_bytes()) {
        proof {
            assert(views[1] == toks@[1]@);
        }
        match parse_usize(toks[1].as_slice()) {
            Some(id) => {
                return ClientCommand::DeleteUser(id);
            },
            None => {
                return ClientCommand::InvalidUserId;
            },
        }
    }
    ClientCommand::Unknown
}

} // verus!
