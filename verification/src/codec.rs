use crate::batch::{Batch, BatchModel};
use crate::species::Species;
use vstd::prelude::*;
use vstd::string::*;

verus! {

// ---------------------------------------------------------------------------
// The persisted encoding of a batch list.
//
// A session's batches are stored in one text column as a field-tagged,
// self-describing structured value: a bracketed list of brace-delimited
// records, each carrying the species tag, the free-text description (with
// `"` and `\` escaped by a backslash) and the egg count in decimal.  The
// encoding round-trips every batch exactly; the decoder also accepts a
// record that omits the egg count, which defaults to 1.
// ---------------------------------------------------------------------------
/// How one character of a free-text field is written: `"` and `\` get a
/// backslash escape, everything else stands for itself.
pub open spec fn esc_char(c: char) -> Seq<char> {
    if c == '"' || c == '\\' {
        seq!['\\', c]
    } else {
        seq![c]
    }
}

/// A free-text field, escaped character by character.
pub open spec fn enc_str(s: Seq<char>) -> Seq<char>
    decreases s.len(),
{
    if s.len() == 0 {
        Seq::empty()
    } else {
        esc_char(s[0]) + enc_str(s.skip(1))
    }
}

pub open spec fn spec_digit_char(d: int) -> char {
    if d == 0 {
        '0'
    } else if d == 1 {
        '1'
    } else if d == 2 {
        '2'
    } else if d == 3 {
        '3'
    } else if d == 4 {
        '4'
    } else if d == 5 {
        '5'
    } else if d == 6 {
        '6'
    } else if d == 7 {
        '7'
    } else if d == 8 {
        '8'
    } else {
        '9'
    }
}

/// A non-negative number in decimal, most significant digit first, no
/// leading zeros (except for 0 itself).
pub open spec fn enc_u32(n: int) -> Seq<char>
    decreases n,
{
    if n < 10 {
        seq![spec_digit_char(n)]
    } else {
        enc_u32(n / 10).push(spec_digit_char(n % 10))
    }
}

/// One batch record.  The quote closing each text field is written
/// separately from the tag that follows it, mirroring how the decoder
/// consumes it together with the field.
pub open spec fn enc_batch(b: BatchModel) -> Seq<char> {
    "{\"species\":\""@ + enc_str(b.species.spec_name()) + seq!['"'] + ",\"description\":\""@
        + enc_str(b.description) + seq!['"'] + ",\"egg_count\":"@ + enc_u32(b.egg_count as int)
        + seq!['}']
}

/// Second and later records, each preceded by a comma.
pub open spec fn enc_batches_rest(bs: Seq<BatchModel>) -> Seq<char>
    decreases bs.len(),
{
    if bs.len() == 0 {
        Seq::empty()
    } else {
        seq![','] + enc_batch(bs[0]) + enc_batches_rest(bs.skip(1))
    }
}

/// The whole batch list: records between brackets, separated by commas.
pub open spec fn enc_batches(bs: Seq<BatchModel>) -> Seq<char> {
    if bs.len() == 0 {
        seq!['[', ']']
    } else {
        seq!['['] + enc_batch(bs[0]) + enc_batches_rest(bs.skip(1)) + seq![']']
    }
}

/// The models of a list of batches, in order.
pub open spec fn views_of(bs: Seq<Batch>) -> Seq<BatchModel> {
    bs.map_values(|b: Batch| b@)
}

// ---------------------------------------------------------------------------
// Structural lemmas about the encoding, used to grow an encoded value from
// the left while the spec builds it from the right.
// ---------------------------------------------------------------------------
proof fn lemma_enc_str_push(s: Seq<char>, c: char)
    ensures
        enc_str(s.push(c)) == enc_str(s) + esc_char(c),
    decreases s.len(),
{
    let t = s.push(c);
    assert(t.len() == s.len() + 1);
    assert(enc_str(t) == esc_char(t[0]) + enc_str(t.skip(1)));
    if s.len() == 0 {
        assert(t[0] == c);
        assert(t.skip(1) =~= Seq::<char>::empty());
        assert(enc_str(Seq::<char>::empty()) == Seq::<char>::empty());
        assert(enc_str(t) =~= enc_str(s) + esc_char(c));
    } else {
        assert(t[0] == s[0]);
        assert(t.skip(1) =~= s.skip(1).push(c));
        lemma_enc_str_push(s.skip(1), c);
        assert(enc_str(t) == esc_char(s[0]) + (enc_str(s.skip(1)) + esc_char(c)));
        assert(enc_str(s) == esc_char(s[0]) + enc_str(s.skip(1)));
        assert(enc_str(t) =~= enc_str(s) + esc_char(c));
    }
}

proof fn lemma_enc_rest_push(bs: Seq<BatchModel>, b: BatchModel)
    ensures
        enc_batches_rest(bs.push(b)) == enc_batches_rest(bs) + seq![','] + enc_batch(b),
    decreases bs.len(),
{
    let t = bs.push(b);
    assert(t.len() == bs.len() + 1);
    assert(enc_batches_rest(t) == seq![','] + enc_batch(t[0]) + enc_batches_rest(t.skip(1)));
    if bs.len() == 0 {
        assert(t[0] == b);
        assert(t.skip(1) =~= Seq::<BatchModel>::empty());
        assert(enc_batches_rest(Seq::<BatchModel>::empty()) == Seq::<char>::empty());
        assert(enc_batches_rest(t) =~= enc_batches_rest(bs) + seq![','] + enc_batch(b));
    } else {
        assert(t[0] == bs[0]);
        assert(t.skip(1) =~= bs.skip(1).push(b));
        lemma_enc_rest_push(bs.skip(1), b);
        assert(enc_batches_rest(t) == seq![','] + enc_batch(bs[0]) + (enc_batches_rest(bs.skip(1))
            + seq![','] + enc_batch(b)));
        assert(enc_batches_rest(bs) == seq![','] + enc_batch(bs[0]) + enc_batches_rest(
            bs.skip(1),
        ));
        assert(enc_batches_rest(t) =~= enc_batches_rest(bs) + seq![','] + enc_batch(b));
    }
}

// ---------------------------------------------------------------------------
// The encoder.
// ---------------------------------------------------------------------------
/// Appends the characters of `s` unchanged.
fn push_str_chars(out: &mut Vec<char>, s: &str)
    ensures
        final(out)@ == old(out)@ + s@,
{
    let n = s.unicode_len();
    let mut i: usize = 0;
    while i < n
        invariant
            n == s@.len(),
            0 <= i <= n,
            out@ == old(out)@ + s@.take(i as int),
        decreases n - i,
    {
        let c = s.get_char(i);
        out.push(c);
        proof {
            assert(s@.take(i + 1) =~= s@.take(i as int).push(s@[i as int]));
            assert(out@ =~= old(out)@ + s@.take(i + 1));
        }
        i = i + 1;
    }
    proof {
        assert(s@.take(n as int) =~= s@);
    }
}

/// Appends the characters of `s`, escaped as a free-text field.
fn push_escaped(out: &mut Vec<char>, s: &str)
    ensures
        final(out)@ == old(out)@ + enc_str(s@),
{
    let n = s.unicode_len();
    let mut i: usize = 0;
    while i < n
        invariant
            n == s@.len(),
            0 <= i <= n,
            out@ == old(out)@ + enc_str(s@.take(i as int)),
        decreases n - i,
    {
        let c = s.get_char(i);
        if c == '"' || c == '\\' {
            out.push('\\');
        }
        out.push(c);
        proof {
            assert(s@.take(i + 1) =~= s@.take(i as int).push(s@[i as int]));
            lemma_enc_str_push(s@.take(i as int), s@[i as int]);
            assert(out@ =~= old(out)@ + enc_str(s@.take(i + 1)));
        }
        i = i + 1;
    }
    proof {
        assert(s@.take(n as int) =~= s@);
    }
}

fn digit_char(d: u32) -> (c: char)
    requires
        d < 10,
    ensures
        c == spec_digit_char(d as int),
{
    if d == 0 {
        '0'
    } else if d == 1 {
        '1'
    } else if d == 2 {
        '2'
    } else if d == 3 {
        '3'
    } else if d == 4 {
        '4'
    } else if d == 5 {
        '5'
    } else if d == 6 {
        '6'
    } else if d == 7 {
        '7'
    } else if d == 8 {
        '8'
    } else {
        '9'
    }
}

/// Appends `n` in decimal.
fn push_u32(out: &mut Vec<char>, n: u32)
    ensures
        final(out)@ == old(out)@ + enc_u32(n as int),
    decreases n,
{
    if n >= 10 {
        push_u32(out, n / 10);
    }
    let c = digit_char(n % 10);
    out.push(c);
    proof {
        if n < 10 {
            assert(n % 10 == n as int);
            assert(out@ =~= old(out)@ + enc_u32(n as int));
        } else {
            assert(out@ =~= old(out)@ + enc_u32(n as int));
        }
    }
}

/// Appends one batch record.
fn push_batch(out: &mut Vec<char>, b: &Batch)
    ensures
        final(out)@ == old(out)@ + enc_batch(b@),
{
    push_str_chars(out, "{\"species\":\"");
    let name = b.species.name();
    push_escaped(out, name.as_str());
    out.push('"');
    push_str_chars(out, ",\"description\":\"");
    push_escaped(out, b.description.as_str());
    out.push('"');
    push_str_chars(out, ",\"egg_count\":");
    push_u32(out, b.egg_count);
    out.push('}');
    proof {
        assert(out@ =~= old(out)@ + enc_batch(b@));
    }
}

/// Encodes an ordered batch list into the persisted text form.
pub fn encode_batches(bs: &Vec<Batch>) -> (out: Vec<char>)
    ensures
        out@ == enc_batches(views_of(bs@)),
{
    let ghost views = views_of(bs@);
    let mut out: Vec<char> = Vec::new();
    out.push('[');
    if bs.len() == 0 {
        out.push(']');
        proof {
            assert(out@ =~= enc_batches(views));
        }
        return out;
    }
    push_batch(&mut out, &bs[0]);
    let mut i: usize = 1;
    while i < bs.len()
        invariant
            1 <= i <= bs.len(),
            views == views_of(bs@),
            views.len() == bs@.len(),
            out@ == seq!['['] + enc_batch(views[0]) + enc_batches_rest(views.take(i as int).skip(
                1,
            )),
        decreases bs.len() - i,
    {
        out.push(',');
        push_batch(&mut out, &bs[i]);
        proof {
            assert(views.take(i + 1).skip(1) =~= views.take(i as int).skip(1).push(
                views[i as int],
            ));
            lemma_enc_rest_push(views.take(i as int).skip(1), views[i as int]);
            assert(out@ =~= seq!['['] + enc_batch(views[0]) + enc_batches_rest(
                views.take(i + 1).skip(1),
            ));
        }
        i = i + 1;
    }
    out.push(']');
    proof {
        assert(views.take(views.len() as int) =~= views);
        assert(out@ =~= enc_batches(views));
    }
    out
}

// ---------------------------------------------------------------------------
// The decoder's mathematical model: a recursive-descent parser over the
// character sequence.  Each function returns the parsed value and the
// unconsumed suffix, or nothing when the text is not in the encoding.
// ---------------------------------------------------------------------------
pub open spec fn digit_val(c: char) -> Option<int> {
    if c == '0' {
        Some(0 as int)
    } else if c == '1' {
        Some(1 as int)
    } else if c == '2' {
        Some(2 as int)
    } else if c == '3' {
        Some(3 as int)
    } else if c == '4' {
        Some(4 as int)
    } else if c == '5' {
        Some(5 as int)
    } else if c == '6' {
        Some(6 as int)
    } else if c == '7' {
        Some(7 as int)
    } else if c == '8' {
        Some(8 as int)
    } else if c == '9' {
        Some(9 as int)
    } else {
        None
    }
}

/// Consumes `lit` from the front of `s`.
pub open spec fn parse_lit(s: Seq<char>, lit: Seq<char>) -> Option<Seq<char>> {
    if s.len() >= lit.len() && s.take(lit.len() as int) == lit {
        Some(s.skip(lit.len() as int))
    } else {
        None
    }
}

/// Consumes a text field up to and including its closing quote, undoing the
/// backslash escapes.
pub open spec fn parse_str_body(s: Seq<char>) -> Option<(Seq<char>, Seq<char>)>
    decreases s.len(),
{
    if s.len() == 0 {
        None
    } else if s[0] == '"' {
        Some((Seq::empty(), s.skip(1)))
    } else if s[0] == '\\' {
        if s.len() >= 2 && (s[1] == '"' || s[1] == '\\') {
            match parse_str_body(s.skip(2)) {
                Some((t, r)) => Some((seq![s[1]] + t, r)),
                None => None,
            }
        } else {
            None
        }
    } else {
        match parse_str_body(s.skip(1)) {
            Some((t, r)) => Some((seq![s[0]] + t, r)),
            None => None,
        }
    }
}

/// Consumes the longest run of digits, folding them into a value.
pub open spec fn parse_digits_loop(s: Seq<char>, acc: int) -> (int, Seq<char>)
    decreases s.len(),
{
    if s.len() > 0 && digit_val(s[0]) is Some {
        parse_digits_loop(s.skip(1), acc * 10 + digit_val(s[0]).unwrap())
    } else {
        (acc, s)
    }
}

/// Consumes a decimal number that fits the egg-count field.
pub open spec fn parse_u32(s: Seq<char>) -> Option<(int, Seq<char>)> {
    if s.len() > 0 && digit_val(s[0]) is Some {
        let (v, r) = parse_digits_loop(s, 0);
        if v <= 4294967295 {
            Some((v, r))
        } else {
            None
        }
    } else {
        None
    }
}

/// The species whose tag is `s`, if any.
pub open spec fn species_from_name(s: Seq<char>) -> Option<Species> {
    if s == Species::Gallina.spec_name() {
        Some(Species::Gallina)
    } else if s == Species::Anatra.spec_name() {
        Some(Species::Anatra)
    } else if s == Species::Quaglia.spec_name() {
        Some(Species::Quaglia)
    } else if s == Species::Oca.spec_name() {
        Some(Species::Oca)
    } else {
        None
    }
}

/// After the description field: either the record closes at once (the egg
/// count was absent in the stored text and defaults to 1), or the tagged
/// count follows.
pub open spec fn parse_batch_tail(sp: Species, desc: Seq<char>, s: Seq<char>) -> Option<
    (BatchModel, Seq<char>),
> {
    if s.len() > 0 && s[0] == '}' {
        Some((BatchModel { species: sp, description: desc, egg_count: 1 }, s.skip(1)))
    } else {
        match parse_lit(s, ",\"egg_count\":"@) {
            None => None,
            Some(s5) => match parse_u32(s5) {
                None => None,
                Some((v, s6)) => if s6.len() > 0 && s6[0] == '}' {
                    Some((BatchModel { species: sp, description: desc, egg_count: v as u32 },
                        s6.skip(1)))
                } else {
                    None
                },
            },
        }
    }
}

/// Consumes one batch record.
pub open spec fn parse_batch(s: Seq<char>) -> Option<(BatchModel, Seq<char>)> {
    match parse_lit(s, "{\"species\":\""@) {
        None => None,
        Some(s1) => match parse_str_body(s1) {
            None => None,
            Some((name, s2)) => match species_from_name(name) {
                None => None,
                Some(sp) => match parse_lit(s2, ",\"description\":\""@) {
                    None => None,
                    Some(s3) => match parse_str_body(s3) {
                        None => None,
                        Some((desc, s4)) => parse_batch_tail(sp, desc, s4),
                    },
                },
            },
        },
    }
}

/// Consumes the remainder of the list after a record: either the closing
/// bracket ends the whole text, or a comma introduces the next record.
pub open spec fn parse_list_rest(s: Seq<char>, acc: Seq<BatchModel>) -> Option<Seq<BatchModel>>
    decreases s.len(),
{
    if s.len() == 0 {
        None
    } else if s[0] == ']' {
        if s.len() == 1 {
            Some(acc)
        } else {
            None
        }
    } else if s[0] == ',' {
        match parse_batch(s.skip(1)) {
            Some((b, r)) => if r.len() < s.len() {
                parse_list_rest(r, acc.push(b))
            } else {
                None
            },
            None => None,
        }
    } else {
        None
    }
}

/// The whole blob: a bracketed list of records with nothing after it.
pub open spec fn parse_batches(s: Seq<char>) -> Option<Seq<BatchModel>> {
    if s.len() < 2 || s[0] != '[' {
        None
    } else if s[1] == ']' {
        if s.len() == 2 {
            Some(Seq::empty())
        } else {
            None
        }
    } else {
        match parse_batch(s.skip(1)) {
            Some((b, r)) => if r.len() < s.len() {
                parse_list_rest(r, seq![b])
            } else {
                None
            },
            None => None,
        }
    }
}

// ---------------------------------------------------------------------------
// Completeness: the parser inverts the encoder.
// ---------------------------------------------------------------------------
proof fn lemma_parse_lit_enc(lit: Seq<char>, rest: Seq<char>)
    ensures
        parse_lit(lit + rest, lit) == Some(rest),
{
    let s = lit + rest;
    assert(s.take(lit.len() as int) =~= lit);
    assert(s.skip(lit.len() as int) =~= rest);
}

proof fn lemma_parse_str_body_enc(x: Seq<char>, rest: Seq<char>)
    ensures
        parse_str_body(enc_str(x) + seq!['"'] + rest) == Some((x, rest)),
    decreases x.len(),
{
    let s = enc_str(x) + seq!['"'] + rest;
    if x.len() == 0 {
        assert(enc_str(x) == Seq::<char>::empty());
        assert(s =~= seq!['"'] + rest);
        assert(s[0] == '"');
        assert(s.skip(1) =~= rest);
        assert(parse_str_body(s) == Some((Seq::<char>::empty(), rest)));
        assert(Seq::<char>::empty() =~= x);
    } else {
        let c = x[0];
        let x1 = x.skip(1);
        assert(enc_str(x) == esc_char(c) + enc_str(x1));
        lemma_parse_str_body_enc(x1, rest);
        if c == '"' || c == '\\' {
            assert(esc_char(c) == seq!['\\', c]);
            assert(s =~= seq!['\\', c] + (enc_str(x1) + seq!['"'] + rest));
            assert(s[0] == '\\');
            assert(s[1] == c);
            assert(s.len() >= 2);
            assert(s.skip(2) =~= enc_str(x1) + seq!['"'] + rest);
            assert(parse_str_body(s) == Some((seq![c] + x1, rest)));
            assert(seq![c] + x1 =~= x);
        } else {
            assert(esc_char(c) == seq![c]);
            assert(s =~= seq![c] + (enc_str(x1) + seq!['"'] + rest));
            assert(s[0] == c);
            assert(s.skip(1) =~= enc_str(x1) + seq!['"'] + rest);
            assert(parse_str_body(s) == Some((seq![c] + x1, rest)));
            assert(seq![c] + x1 =~= x);
        }
    }
}

/// The digits already read, shifted left past the digits of `n`.
spec fn shift_digits(acc: int, n: int) -> int
    decreases n,
{
    if n < 10 {
        acc * 10 + n
    } else {
        shift_digits(acc, n / 10) * 10 + n % 10
    }
}

proof fn lemma_digit_char_val(d: int)
    requires
        0 <= d < 10,
    ensures
        digit_val(spec_digit_char(d)) == Some(d),
{
}

proof fn lemma_enc_u32_digits(n: int)
    requires
        n >= 0,
    ensures
        enc_u32(n).len() >= 1,
        digit_val(enc_u32(n)[0]) is Some,
    decreases n,
{
    if n < 10 {
        lemma_digit_char_val(n);
    } else {
        lemma_enc_u32_digits(n / 10);
        assert(enc_u32(n)[0] == enc_u32(n / 10)[0]);
    }
}

proof fn lemma_parse_digits_enc(n: int, rest: Seq<char>, acc: int)
    requires
        n >= 0,
    ensures
        parse_digits_loop(enc_u32(n) + rest, acc) == parse_digits_loop(rest, shift_digits(acc, n)),
    decreases n,
{
    if n < 10 {
        lemma_digit_char_val(n);
        let s = enc_u32(n) + rest;
        assert(enc_u32(n) == seq![spec_digit_char(n)]);
        assert(s[0] == spec_digit_char(n));
        assert(s.skip(1) =~= rest);
        assert(parse_digits_loop(s, acc) == parse_digits_loop(rest, acc * 10 + n));
    } else {
        let d = n % 10;
        assert(0 <= d < 10);
        lemma_digit_char_val(d);
        assert(enc_u32(n) == enc_u32(n / 10).push(spec_digit_char(d)));
        assert(enc_u32(n) + rest =~= enc_u32(n / 10) + (seq![spec_digit_char(d)] + rest));
        lemma_parse_digits_enc(n / 10, seq![spec_digit_char(d)] + rest, acc);
        let mid = seq![spec_digit_char(d)] + rest;
        assert(mid[0] == spec_digit_char(d));
        assert(mid.skip(1) =~= rest);
        assert(parse_digits_loop(mid, shift_digits(acc, n / 10)) == parse_digits_loop(
            rest,
            shift_digits(acc, n / 10) * 10 + d,
        ));
    }
}

proof fn lemma_shift_digits_zero(n: int)
    requires
        n >= 0,
    ensures
        shift_digits(0, n) == n,
    decreases n,
{
    if n >= 10 {
        lemma_shift_digits_zero(n / 10);
    }
}

proof fn lemma_parse_u32_enc(n: u32, rest: Seq<char>)
    requires
        rest.len() == 0 || digit_val(rest[0]) is None,
    ensures
        parse_u32(enc_u32(n as int) + rest) == Some((n as int, rest)),
{
    let s = enc_u32(n as int) + rest;
    lemma_enc_u32_digits(n as int);
    assert(s[0] == enc_u32(n as int)[0]);
    lemma_parse_digits_enc(n as int, rest, 0);
    lemma_shift_digits_zero(n as int);
    assert(parse_digits_loop(rest, n as int) == (n as int, rest));
}

proof fn lemma_species_from_name(sp: Species)
    ensures
        species_from_name(sp.spec_name()) == Some(sp),
{
    reveal_strlit("Gallina");
    reveal_strlit("Anatra");
    reveal_strlit("Quaglia");
    reveal_strlit("Oca");
    assert(("Gallina"@).len() == 7);
    assert(("Anatra"@).len() == 6);
    assert(("Quaglia"@).len() == 7);
    assert(("Oca"@).len() == 3);
    assert(("Quaglia"@)[0] == 'Q');
    assert(("Gallina"@)[0] == 'G');
}

proof fn lemma_enc_batch_shape(b: BatchModel)
    ensures
        enc_batch(b).len() >= 1,
        enc_batch(b)[0] == '{',
{
    reveal_strlit("{\"species\":\"");
    assert(("{\"species\":\""@).len() == 12);
    assert(("{\"species\":\""@)[0] == '{');
    assert(enc_batch(b)[0] == ("{\"species\":\""@)[0]);
}

proof fn lemma_parse_batch_enc(b: BatchModel, rest: Seq<char>)
    ensures
        parse_batch(enc_batch(b) + rest) == Some((b, rest)),
{
    let name = b.species.spec_name();
    let desc = b.description;
    let egg = b.egg_count as int;
    let l1 = "{\"species\":\""@;
    let l2 = ",\"description\":\""@;
    let l3 = ",\"egg_count\":"@;
    let t5 = seq!['}'] + rest;
    let t4 = enc_u32(egg) + t5;
    let t3 = l3 + t4;
    let t2 = enc_str(desc) + seq!['"'] + t3;
    let t1 = l2 + t2;
    let t0 = enc_str(name) + seq!['"'] + t1;
    let s = enc_batch(b) + rest;
    assert(s =~= l1 + t0);
    lemma_parse_lit_enc(l1, t0);
    lemma_parse_str_body_enc(name, t1);
    lemma_species_from_name(b.species);
    lemma_parse_lit_enc(l2, t2);
    lemma_parse_str_body_enc(desc, t3);
    reveal_strlit(",\"egg_count\":");
    assert(l3.len() == 13);
    assert(t3[0] == l3[0]);
    assert(l3[0] == ',');
    lemma_parse_lit_enc(l3, t4);
    assert(t5[0] == '}');
    assert(digit_val('}') is None);
    lemma_parse_u32_enc(b.egg_count, t5);
    assert(t5.skip(1) =~= rest);
    assert(parse_batch_tail(b.species, desc, t3) == Some((b, rest)));
}

proof fn lemma_parse_list_rest_enc(t: Seq<BatchModel>, acc: Seq<BatchModel>)
    ensures
        parse_list_rest(enc_batches_rest(t) + seq![']'], acc) == Some(acc + t),
    decreases t.len(),
{
    let s = enc_batches_rest(t) + seq![']'];
    if t.len() == 0 {
        assert(s =~= seq![']']);
        assert(s[0] == ']');
        assert(parse_list_rest(s, acc) == Some(acc));
        assert(acc + t =~= acc);
    } else {
        let b = t[0];
        let t1 = t.skip(1);
        assert(enc_batches_rest(t) == seq![','] + enc_batch(b) + enc_batches_rest(t1));
        let r = enc_batches_rest(t1) + seq![']'];
        assert(s =~= seq![','] + (enc_batch(b) + r));
        assert(s[0] == ',');
        assert(s.skip(1) =~= enc_batch(b) + r);
        lemma_parse_batch_enc(b, r);
        lemma_enc_batch_shape(b);
        assert(r.len() < s.len());
        lemma_parse_list_rest_enc(t1, acc.push(b));
        assert(parse_list_rest(s, acc) == Some(acc.push(b) + t1));
        assert(acc.push(b) + t1 =~= acc + t);
    }
}

/// Round trip: decoding an encoded batch list gives the list back, exactly
/// and in order, for every batch list.
pub proof fn lemma_batches_round_trip(bs: Seq<BatchModel>)
    ensures
        parse_batches(enc_batches(bs)) == Some(bs),
{
    let s = enc_batches(bs);
    if bs.len() == 0 {
        assert(s == seq!['[', ']']);
        assert(s.len() == 2 && s[0] == '[' && s[1] == ']');
    } else {
        let b = bs[0];
        let t1 = bs.skip(1);
        let r = enc_batches_rest(t1) + seq![']'];
        assert(s =~= seq!['['] + (enc_batch(b) + r));
        lemma_enc_batch_shape(b);
        assert(s[0] == '[');
        assert(s[1] == enc_batch(b)[0]);
        assert(s[1] != ']');
        assert(s.skip(1) =~= enc_batch(b) + r);
        lemma_parse_batch_enc(b, r);
        assert(r.len() < s.len());
        lemma_parse_list_rest_enc(t1, seq![b]);
        assert(parse_batches(s) == Some(seq![b] + t1));
        assert(seq![b] + t1 =~= bs);
    }
}

// ---------------------------------------------------------------------------
// The decoder.  Each function implements the corresponding parsing spec on
// the suffix of `v` that starts at `i`.
// ---------------------------------------------------------------------------
/// Relies on `String`'s `FromIterator<char>` implementation: collecting
/// characters yields the string of exactly those characters, in order.
#[verifier::external_body]
fn chars_to_string(v: &Vec<char>) -> (s: String)
    ensures
        s@ == v@,
{
    v.iter().collect()
}

fn char_digit(c: char) -> (r: Option<u32>)
    ensures
        match r {
            Some(d) => digit_val(c) == Some(d as int) && d < 10,
            None => digit_val(c) is None,
        },
{
    match c {
        '0' => Some(0),
        '1' => Some(1),
        '2' => Some(2),
        '3' => Some(3),
        '4' => Some(4),
        '5' => Some(5),
        '6' => Some(6),
        '7' => Some(7),
        '8' => Some(8),
        '9' => Some(9),
        _ => None,
    }
}

fn parse_lit_at(v: &Vec<char>, i: usize, lit: &str) -> (r: Option<usize>)
    requires
        i <= v@.len(),
    ensures
        match r {
            Some(j) => i <= j <= v@.len() && parse_lit(v@.skip(i as int), lit@) == Some(
                v@.skip(j as int),
            ),
            None => parse_lit(v@.skip(i as int), lit@) is None,
        },
{
    let n = lit.unicode_len();
    if v.len() - i < n {
        return None;
    }
    let mut k: usize = 0;
    while k < n
        invariant
            n == lit@.len(),
            i + n <= v@.len(),
            v@.len() <= usize::MAX,
            0 <= k <= n,
            forall|m: int| 0 <= m < k ==> v@[i + m] == lit@[m],
        decreases n - k,
    {
        let c = v[i + k];
        let d = lit.get_char(k);
        if c != d {
            proof {
                let s = v@.skip(i as int);
                assert(s.len() >= lit@.len());
                if s.take(lit@.len() as int) == lit@ {
                    assert(s.take(lit@.len() as int)[k as int] == s[k as int]);
                    assert(s[k as int] == v@[i + k]);
                }
            }
            return None;
        }
        k = k + 1;
    }
    proof {
        let s = v@.skip(i as int);
        assert(s.take(lit@.len() as int) =~= lit@);
        assert(s.skip(lit@.len() as int) =~= v@.skip(i + n));
    }
    Some(i + n)
}

fn parse_str_at(v: &Vec<char>, i: usize) -> (r: Option<(Vec<char>, usize)>)
    requires
        i <= v@.len(),
    ensures
        match r {
            Some(p) => i < p.1 <= v@.len() && parse_str_body(v@.skip(i as int)) == Some(
                (p.0@, v@.skip(p.1 as int)),
            ),
            None => parse_str_body(v@.skip(i as int)) is None,
        },
{
    let mut out: Vec<char> = Vec::new();
    let mut j: usize = i;
    loop
        invariant
            i <= j <= v@.len(),
            match parse_str_body(v@.skip(j as int)) {
                Some(p) => parse_str_body(v@.skip(i as int)) == Some((out@ + p.0, p.1)),
                None => parse_str_body(v@.skip(i as int)) is None,
            },
        decreases v@.len() - j,
    {
        if j == v.len() {
            proof {
                assert(v@.skip(j as int).len() == 0);
            }
            return None;
        }
        let c = v[j];
        proof {
            assert(v@.skip(j as int)[0] == v@[j as int]);
        }
        if c == '"' {
            proof {
                assert(v@.skip(j as int).skip(1) =~= v@.skip(j + 1));
                assert(parse_str_body(v@.skip(j as int)) == Some(
                    (Seq::<char>::empty(), v@.skip(j + 1)),
                ));
                assert(out@ + Seq::<char>::empty() =~= out@);
            }
            return Some((out, j + 1));
        } else if c == '\\' {
            if j + 1 == v.len() {
                proof {
                    assert(v@.skip(j as int).len() == 1);
                }
                return None;
            }
            let c2 = v[j + 1];
            proof {
                assert(v@.skip(j as int)[1] == v@[j + 1]);
                assert(v@.skip(j as int).len() >= 2);
            }
            if c2 == '"' || c2 == '\\' {
                out.push(c2);
                proof {
                    assert(v@.skip(j as int).skip(2) =~= v@.skip(j + 2));
                    assert(forall|t: Seq<char>| (out@ + t) =~= (out@.drop_last() + (seq![c2]
                        + t)));
                }
                j = j + 2;
            } else {
                return None;
            }
        } else {
            out.push(c);
            proof {
                assert(v@.skip(j as int).skip(1) =~= v@.skip(j + 1));
                assert(forall|t: Seq<char>| (out@ + t) =~= (out@.drop_last() + (seq![c] + t)));
            }
            j = j + 1;
        }
    }
}

proof fn lemma_digits_loop_lower_bound(s: Seq<char>, acc: int)
    requires
        acc >= 0,
    ensures
        parse_digits_loop(s, acc).0 >= acc,
    decreases s.len(),
{
    if s.len() > 0 && digit_val(s[0]) is Some {
        lemma_digits_loop_lower_bound(s.skip(1), acc * 10 + digit_val(s[0]).unwrap());
    }
}

fn parse_u32_at(v: &Vec<char>, i: usize) -> (r: Option<(u32, usize)>)
    requires
        i <= v@.len(),
    ensures
        match r {
            Some(p) => i < p.1 <= v@.len() && parse_u32(v@.skip(i as int)) == Some(
                (p.0 as int, v@.skip(p.1 as int)),
            ),
            None => parse_u32(v@.skip(i as int)) is None,
        },
{
    if i == v.len() {
        return None;
    }
    proof {
        assert(v@.skip(i as int)[0] == v@[i as int]);
    }
    let d0 = match char_digit(v[i]) {
        Some(d) => d,
        None => {
            return None;
        },
    };
    let mut acc: u64 = d0 as u64;
    let mut j: usize = i + 1;
    proof {
        assert(v@.skip(i as int).skip(1) =~= v@.skip(i + 1));
        assert(parse_digits_loop(v@.skip(i as int), 0) == parse_digits_loop(
            v@.skip(i + 1),
            d0 as int,
        ));
    }
    loop
        invariant
            i < j <= v@.len(),
            acc <= 0xFFFF_FFFF,
            digit_val(v@.skip(i as int)[0]) is Some,
            parse_digits_loop(v@.skip(i as int), 0) == parse_digits_loop(
                v@.skip(j as int),
                acc as int,
            ),
        decreases v@.len() - j,
    {
        if j == v.len() {
            proof {
                assert(v@.skip(j as int).len() == 0);
                assert(parse_digits_loop(v@.skip(j as int), acc as int) == (
                    acc as int,
                    v@.skip(j as int),
                ));
            }
            return Some((acc as u32, j));
        }
        let c = v[j];
        proof {
            assert(v@.skip(j as int)[0] == v@[j as int]);
        }
        match char_digit(c) {
            Some(d) => {
                let next = acc * 10 + (d as u64);
                proof {
                    assert(v@.skip(j as int).skip(1) =~= v@.skip(j + 1));
                }
                if next > 0xFFFF_FFFF {
                    proof {
                        lemma_digits_loop_lower_bound(v@.skip(j + 1), next as int);
                    }
                    return None;
                }
                acc = next;
                j = j + 1;
            },
            None => {
                proof {
                    assert(parse_digits_loop(v@.skip(j as int), acc as int) == (
                        acc as int,
                        v@.skip(j as int),
                    ));
                }
                return Some((acc as u32, j));
            },
        }
    }
}

fn chars_eq_lit(v: &Vec<char>, lit: &str) -> (b: bool)
    ensures
        b == (v@ == lit@),
{
    let n = lit.unicode_len();
    if v.len() != n {
        proof {
            assert(v@.len() != lit@.len());
        }
        return false;
    }
    let mut k: usize = 0;
    while k < n
        invariant
            n == lit@.len(),
            v@.len() == n,
            0 <= k <= n,
            forall|m: int| 0 <= m < k ==> v@[m] == lit@[m],
        decreases n - k,
    {
        if v[k] != lit.get_char(k) {
            proof {
                if v@ == lit@ {
                    assert(v@[k as int] == lit@[k as int]);
                }
            }
            return false;
        }
        k = k + 1;
    }
    proof {
        assert(v@ =~= lit@);
    }
    true
}

fn species_from_chars(name: &Vec<char>) -> (r: Option<Species>)
    ensures
        r == species_from_name(name@),
{
    if chars_eq_lit(name, "Gallina") {
        Some(Species::Gallina)
    } else if chars_eq_lit(name, "Anatra") {
        Some(Species::Anatra)
    } else if chars_eq_lit(name, "Quaglia") {
        Some(Species::Quaglia)
    } else if chars_eq_lit(name, "Oca") {
        Some(Species::Oca)
    } else {
        None
    }
}

fn parse_batch_at(v: &Vec<char>, i: usize) -> (r: Option<(Batch, usize)>)
    requires
        i <= v@.len(),
    ensures
        match r {
            Some(p) => i <= p.1 <= v@.len() && parse_batch(v@.skip(i as int)) == Some(
                (p.0@, v@.skip(p.1 as int)),
            ),
            None => parse_batch(v@.skip(i as int)) is None,
        },
{
    let s1 = match parse_lit_at(v, i, "{\"species\":\"") {
        Some(j) => j,
        None => {
            return None;
        },
    };
    let (name, s2) = match parse_str_at(v, s1) {
        Some(p) => p,
        None => {
            return None;
        },
    };
    let sp = match species_from_chars(&name) {
        Some(sp) => sp,
        None => {
            return None;
        },
    };
    let s3 = match parse_lit_at(v, s2, ",\"description\":\"") {
        Some(j) => j,
        None => {
            return None;
        },
    };
    let (desc, s4) = match parse_str_at(v, s3) {
        Some(p) => p,
        None => {
            return None;
        },
    };
    if s4 < v.len() {
        proof {
            assert(v@.skip(s4 as int)[0] == v@[s4 as int]);
        }
        if v[s4] == '}' {
            let b = Batch { species: sp, description: chars_to_string(&desc), egg_count: 1 };
            proof {
                assert(v@.skip(s4 as int).skip(1) =~= v@.skip(s4 + 1));
            }
            return Some((b, s4 + 1));
        }
    }
    let s5 = match parse_lit_at(v, s4, ",\"egg_count\":") {
        Some(j) => j,
        None => {
            return None;
        },
    };
    let (n, s6) = match parse_u32_at(v, s5) {
        Some(p) => p,
        None => {
            return None;
        },
    };
    if s6 < v.len() {
        proof {
            assert(v@.skip(s6 as int)[0] == v@[s6 as int]);
        }
        if v[s6] == '}' {
            let b = Batch { species: sp, description: chars_to_string(&desc), egg_count: n };
            proof {
                assert(v@.skip(s6 as int).skip(1) =~= v@.skip(s6 + 1));
            }
            return Some((b, s6 + 1));
        }
    }
    None
}

/// Decodes a persisted batch list.  Returns the decoded batches exactly when
/// the text is in the encoding; anything else is rejected.
pub fn decode_batches(v: &Vec<char>) -> (r: Option<Vec<Batch>>)
    ensures
        match r {
            Some(out) => parse_batches(v@) == Some(views_of(out@)),
            None => parse_batches(v@) is None,
        },
{
    if v.len() < 2 {
        return None;
    }
    if v[0] != '[' {
        return None;
    }
    if v[1] == ']' {
        if v.len() == 2 {
            let out: Vec<Batch> = Vec::new();
            proof {
                assert(views_of(out@) =~= Seq::<BatchModel>::empty());
            }
            return Some(out);
        } else {
            return None;
        }
    }
    proof {
        assert(v@.skip(1)[0] == v@[1]);
    }
    let (b0, r0) = match parse_batch_at(v, 1) {
        Some(p) => p,
        None => {
            return None;
        },
    };
    let mut out: Vec<Batch> = Vec::new();
    out.push(b0);
    let mut j: usize = r0;
    proof {
        assert(views_of(out@) =~= seq![b0@]);
        assert(v@.skip(r0 as int).len() < v@.len());
        assert(parse_batches(v@) == parse_list_rest(v@.skip(r0 as int), seq![b0@]));
    }
    loop
        invariant
            0 < j <= v@.len(),
            parse_batches(v@) == parse_list_rest(v@.skip(j as int), views_of(out@)),
        decreases v@.len() - j,
    {
        if j == v.len() {
            proof {
                assert(v@.skip(j as int).len() == 0);
            }
            return None;
        }
        let c = v[j];
        proof {
            assert(v@.skip(j as int)[0] == v@[j as int]);
        }
        if c == ']' {
            if j + 1 == v.len() {
                proof {
                    assert(v@.skip(j as int).len() == 1);
                }
                return Some(out);
            } else {
                proof {
                    assert(v@.skip(j as int).len() > 1);
                }
                return None;
            }
        } else if c == ',' {
            proof {
                assert(v@.skip(j as int).skip(1) =~= v@.skip(j + 1));
            }
            let (b, r2) = match parse_batch_at(v, j + 1) {
                Some(p) => p,
                None => {
                    return None;
                },
            };
            let ghost views_old = views_of(out@);
            proof {
                assert(v@.skip(r2 as int).len() < v@.skip(j as int).len());
                assert(parse_list_rest(v@.skip(j as int), views_old) == parse_list_rest(
                    v@.skip(r2 as int),
                    views_old.push(b@),
                ));
            }
            out.push(b);
            proof {
                assert(views_of(out@) =~= views_old.push(b@));
            }
            j = r2;
        } else {
            return None;
        }
    }
}

/// The characters of `s`, as a vector.
pub fn str_to_chars(s: &str) -> (v: Vec<char>)
    ensures
        v@ == s@,
{
    let n = s.unicode_len();
    let mut v: Vec<char> = Vec::new();
    let mut i: usize = 0;
    while i < n
        invariant
            n == s@.len(),
            0 <= i <= n,
            v@ == s@.take(i as int),
        decreases n - i,
    {
        let c = s.get_char(i);
        v.push(c);
        proof {
            assert(s@.take(i + 1) =~= s@.take(i as int).push(s@[i as int]));
        }
        i = i + 1;
    }
    proof {
        assert(s@.take(n as int) =~= s@);
    }
    v
}

/// Encodes an ordered batch list into the persisted text form, as the
/// string that goes into the blob column.
pub fn encode_batches_text(bs: &Vec<Batch>) -> (s: String)
    ensures
        s@ == enc_batches(views_of(bs@)),
{
    let v = encode_batches(bs);
    chars_to_string(&v)
}

/// Decodes a persisted batch-list string; rejects anything not in the
/// encoding.
pub fn decode_batches_text(s: &str) -> (r: Option<Vec<Batch>>)
    ensures
        match r {
            Some(out) => parse_batches(s@) == Some(views_of(out@)),
            None => parse_batches(s@) is None,
        },
{
    let v = str_to_chars(s);
    decode_batches(&v)
}

} // verus!
