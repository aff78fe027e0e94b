use vstd::prelude::*;
use vstd::string::*;

verus! {

/// Text of a field with the separator characters `|` and `=` replaced by `_`.
pub open spec fn escaped_field(s: Seq<char>) -> Seq<char> {
    s.map_values(|c: char| if c == '|' || c == '=' { '_' } else { c })
}

/// Text with each `"` preceded by a backslash.
pub open spec fn escaped_quotes(s: Seq<char>) -> Seq<char>
    decreases s.len(),
{
    if s.len() == 0 {
        Seq::empty()
    } else {
        let last = s.last();
        escaped_quotes(s.drop_last()) + if last == '"' {
            seq!['\\', '"']
        } else {
            seq![last]
        }
    }
}

/// Replaces `|` and `=` by `_` so that a value cannot break a log line apart.
pub fn escape_field(value: &str) -> (r: String)
    ensures
        r@ == escaped_field(value@),
{
    let n = value.unicode_len();
    let mut r = String::new();
    let mut i: usize = 0;
    while i < n
        invariant
            n == value@.len(),
            i <= n,
            r@ == escaped_field(value@.take(i as int)),
        decreases n - i,
    {
        let c = value.get_char(i);
        let ghost before = r@;
        if c == '|' || c == '=' {
            r.append("_");
            proof { reveal_strlit("_"); }
        } else {
            r.append(value.substring_char(i, i + 1));
        }
        assert(value@.take(i + 1) =~= value@.take(i as int).push(c));
        assert(escaped_field(value@.take(i + 1)) =~= before.push(
            if c == '|' || c == '=' { '_' } else { c },
        ));
        i += 1;
    }
    assert(value@.take(n as int) =~= value@);
    r
}

/// Escapes double quotes for embedding in a JSON string.
pub fn escape_json(input: &str) -> (r: String)
    ensures
        r@ == escaped_quotes(input@),
{
    let n = input.unicode_len();
    let mut r = String::new();
    let mut i: usize = 0;
    while i < n
        invariant
            n == input@.len(),
            i <= n,
            r@ == escaped_quotes(input@.take(i as int)),
        decreases n - i,
    {
        let c = input.get_char(i);
        let ghost before = r@;
        if c == '"' {
            r.append("\\\"");
            proof { reveal_strlit("\\\""); }
        } else {
            r.append(input.substring_char(i, i + 1));
        }
        assert(input@.take(i + 1).drop_last() =~= input@.take(i as int));
        i += 1;
    }
    assert(input@.take(n as int) =~= input@);
    r
}

/// The pieces of `s[start..]` between separators `sep`, scanning from `i`.
pub open spec fn split_from(s: Seq<char>, sep: char, start: int, i: int) -> Seq<Seq<char>>
    decreases s.len() - i,
{
    if i >= s.len() {
        seq![s.subrange(start, s.len() as int)]
    } else if s[i] == sep {
        seq![s.subrange(start, i)] + split_from(s, sep, i + 1, i + 1)
    } else {
        split_from(s, sep, start, i + 1)
    }
}

/// The pieces of `s` between separators `sep` (one more than there are separators).
pub open spec fn split_on(s: Seq<char>, sep: char) -> Seq<Seq<char>> {
    split_from(s, sep, 0, 0)
}

/// Splits `s` at every `sep`.
pub fn split_text(s: &str, sep: char) -> (r: Vec<String>)
    ensures
        r@.map_values(|p: String| p@) == split_on(s@, sep),
{
    let n = s.unicode_len();
    let mut r: Vec<String> = Vec::new();
    let mut start: usize = 0;
    let mut i: usize = 0;
    while i < n
        invariant
            n == s@.len(),
            start <= i <= n,
            r@.map_values(|p: String| p@) + split_from(s@, sep, start as int, i as int)
                == split_on(s@, sep),
        decreases n - i,
    {
        if s.get_char(i) == sep {
            let ghost before = r@.map_values(|p: String| p@);
            let piece = String::from_str(s.substring_char(start, i));
            r.push(piece);
            assert(r@.map_values(|p: String| p@) =~= before.push(s@.subrange(start as int, i as int)));
            assert(before + split_from(s@, sep, start as int, i as int) =~= before.push(
                s@.subrange(start as int, i as int),
            ) + split_from(s@, sep, i + 1, i + 1));
            i += 1;
            start = i;
        } else {
            i += 1;
        }
    }
    let ghost before = r@.map_values(|p: String| p@);
    r.push(String::from_str(s.substring_char(start, n)));
    assert(r@.map_values(|p: String| p@) =~= before + split_from(s@, sep, start as int, n as int));
    r
}

/// Index of the first `c` in `s` at or after `i`, if any.
pub open spec fn find_from(s: Seq<char>, c: char, i: int) -> Option<int>
    decreases s.len() - i,
{
    if i >= s.len() {
        None
    } else if s[i] == c {
        Some(i)
    } else {
        find_from(s, c, i + 1)
    }
}

/// A `key=value` segment split at its first `=`.
pub open spec fn key_value(seg: Seq<char>) -> Option<(Seq<char>, Seq<char>)> {
    match find_from(seg, '=', 0) {
        Some(k) => Some((seg.subrange(0, k), seg.subrange(k + 1, seg.len() as int))),
        None => None,
    }
}

/// The fields of segments `segs[k..]`: empty segments are skipped, the first segment
/// without `=` is an error.
pub open spec fn fields_from(segs: Seq<Seq<char>>, k: int) -> Result<
    Seq<(Seq<char>, Seq<char>)>,
    Seq<char>,
>
    decreases segs.len() - k,
{
    if k >= segs.len() {
        Ok(Seq::empty())
    } else if segs[k].len() == 0 {
        fields_from(segs, k + 1)
    } else {
        match key_value(segs[k]) {
            None => Err("invalid field: "@ + segs[k]),
            Some(kv) => match fields_from(segs, k + 1) {
                Ok(rest) => Ok(seq![kv] + rest),
                Err(e) => Err(e),
            },
        }
    }
}

/// The `key=value` fields of a log line, after its leading record tag.
pub open spec fn line_fields(raw: Seq<char>) -> Result<Seq<(Seq<char>, Seq<char>)>, Seq<char>> {
    fields_from(split_on(raw, '|'), 1)
}

pub open spec fn pairs_view(v: Seq<(String, String)>) -> Seq<(Seq<char>, Seq<char>)> {
    v.map_values(|p: (String, String)| (p.0@, p.1@))
}

/// Splits a segment at its first `=`.
fn split_key_value(seg: &str) -> (r: Option<(String, String)>)
    ensures
        r is Some <==> key_value(seg@) is Some,
        r is Some ==> (r->Some_0.0@, r->Some_0.1@) == key_value(seg@)->Some_0,
{
    let n = seg.unicode_len();
    let mut i: usize = 0;
    while i < n
        invariant
            n == seg@.len(),
            i <= n,
            find_from(seg@, '=', 0) == find_from(seg@, '=', i as int),
        decreases n - i,
    {
        if seg.get_char(i) == '=' {
            let key = String::from_str(seg.substring_char(0, i));
            let value = String::from_str(seg.substring_char(i + 1, n));
            return Some((key, value));
        }
        i += 1;
    }
    None
}

/// Reads the `key=value` fields of a log line, in order, skipping the record tag before
/// the first `|` and empty segments.
pub fn parse_fields(raw: &str) -> (r: Result<Vec<(String, String)>, String>)
    ensures
        r is Ok <==> line_fields(raw@) is Ok,
        r is Ok ==> pairs_view(r->Ok_0@) == line_fields(raw@)->Ok_0,
        r is Err ==> r->Err_0@ == line_fields(raw@)->Err_0,
{
    let segs = split_text(raw, '|');
    let ghost sv = segs@.map_values(|p: String| p@);
    let mut out: Vec<(String, String)> = Vec::new();
    let mut k: usize = 1;
    while k < segs.len()
        invariant
            sv == segs@.map_values(|p: String| p@),
            sv == split_on(raw@, '|'),
            1 <= k,
            fields_from(sv, 1) == match fields_from(sv, k as int) {
                Ok(rest) => Ok(pairs_view(out@) + rest),
                Err(e) => Err(e),
            },
        decreases segs@.len() - k,
    {
        let seg = segs[k].as_str();
        assert(sv[k as int] == seg@);
        if seg.unicode_len() == 0 {
            k += 1;
        } else {
            match split_key_value(seg) {
                None => {
                    return Err(String::from_str("invalid field: ").concat(seg));
                },
                Some(kv) => {
                    let ghost before = pairs_view(out@);
                    out.push(kv);
                    assert(pairs_view(out@) =~= before + seq![(kv.0@, kv.1@)]);
                    proof {
                        match fields_from(sv, k + 1) {
                            Ok(rest) => {
                                assert(before + (seq![(kv.0@, kv.1@)] + rest) =~= pairs_view(out@)
                                    + rest);
                            },
                            Err(_) => {},
                        }
                    }
                    k += 1;
                },
            }
        }
    }
    assert(pairs_view(out@) + Seq::<(Seq<char>, Seq<char>)>::empty() =~= pairs_view(out@));
    Ok(out)
}

/// The value of the last field named `key`, as a map keeps the last write.
pub open spec fn field_lookup(fields: Seq<(Seq<char>, Seq<char>)>, key: Seq<char>) -> Option<
    Seq<char>,
>
    decreases fields.len(),
{
    if fields.len() == 0 {
        None
    } else if fields.last().0 == key {
        Some(fields.last().1)
    } else {
        field_lookup(fields.drop_last(), key)
    }
}

/// The value of the last field named `key`.
pub fn field_value(fields: &Vec<(String, String)>, key: &str) -> (r: Option<String>)
    ensures
        r is Some <==> field_lookup(pairs_view(fields@), key@) is Some,
        r is Some ==> r->Some_0@ == field_lookup(pairs_view(fields@), key@)->Some_0,
{
    let mut i: usize = fields.len();
    assert(fields@.take(i as int) =~= fields@);
    while i > 0
        invariant
            i <= fields@.len(),
            field_lookup(pairs_view(fields@), key@) == field_lookup(
                pairs_view(fields@.take(i as int)),
                key@,
            ),
        decreases i,
    {
        let ghost pv = pairs_view(fields@.take(i as int));
        assert(pv.last() == (fields@[i - 1].0@, fields@[i - 1].1@));
        if crate::cli::same_text(fields[i - 1].0.as_str(), key) {
            return Some(fields[i - 1].1.clone());
        }
        assert(pv.drop_last() =~= pairs_view(fields@.take(i - 1)));
        i -= 1;
    }
    None
}

/// Whether `c` is an ASCII digit.
pub open spec fn is_digit(c: char) -> bool {
    '0' <= c && c <= '9'
}

/// Value of a string of decimal digits.
pub open spec fn digits_value(s: Seq<char>) -> nat
    decreases s.len(),
{
    if s.len() == 0 {
        0
    } else {
        digits_value(s.drop_last()) * 10 + (s.last() as nat - '0' as nat) as nat
    }
}

/// A number's digits: the text without one leading `+`.
pub open spec fn unsigned_body(s: Seq<char>) -> Seq<char> {
    if s.len() > 0 && s[0] == '+' {
        s.subrange(1, s.len() as int)
    } else {
        s
    }
}

/// The decimal number a string holds, as `str::parse` reads an unsigned integer: an
/// optional `+`, then at least one ASCII digit.
pub open spec fn decimal_of(s: Seq<char>) -> Option<nat> {
    let d = unsigned_body(s);
    if d.len() > 0 && (forall|i: int| 0 <= i < d.len() ==> #[trigger] is_digit(d[i])) {
        Some(digits_value(d))
    } else {
        None
    }
}

proof fn lemma_digits_value_grows(s: Seq<char>, k: int)
    requires
        0 <= k <= s.len(),
    ensures
        digits_value(s.take(k)) <= digits_value(s),
    decreases s.len() - k,
{
    if k < s.len() {
        lemma_digits_value_grows(s, k + 1);
        assert(s.take(k + 1).drop_last() =~= s.take(k));
    } else {
        assert(s.take(k) =~= s);
    }
}

/// Reads an unsigned decimal number no larger than `max`, as `str::parse` does for
/// an integer type whose largest value is `max`.
pub fn parse_decimal(s: &str, max: u64) -> (r: Option<u64>)
    ensures
        r is Some <==> (decimal_of(s@) matches Some(v) && v <= max),
        r is Some ==> decimal_of(s@) == Some(r->Some_0 as nat),
{
    let n = s.unicode_len();
    let first: usize = if n > 0 && s.get_char(0) == '+' {
        1
    } else {
        0
    };
    let ghost d = s@.subrange(first as int, n as int);
    assert(d =~= unsigned_body(s@));
    if first >= n {
        return None;
    }
    let mut value: u64 = 0;
    let mut i: usize = first;
    while i < n
        invariant
            n == s@.len(),
            first <= i <= n,
            d == s@.subrange(first as int, n as int),
            d == unsigned_body(s@),
            forall|k: int| 0 <= k < i - first ==> #[trigger] is_digit(d[k]),
            value as nat == digits_value(d.take(i - first)),
            value <= max,
        decreases n - i,
    {
        let c = s.get_char(i);
        assert(d[i - first] == c);
        if !('0' <= c && c <= '9') {
            assert(!is_digit(d[i - first]));
            return None;
        }
        let digit: u64 = (c as u32 - '0' as u32) as u64;
        assert(d.take(i + 1 - first).drop_last() =~= d.take(i - first));
        assert(d.take(i + 1 - first).last() == c);
        let next: u128 = value as u128 * 10 + digit as u128;
        assert(next == digits_value(d.take(i + 1 - first)));
        if next > max as u128 {
            proof {
                lemma_digits_value_grows(d, i + 1 - first);
            }
            return None;
        }
        value = next as u64;
        i += 1;
    }
    assert(d.take(n - first) =~= d);
    Some(value)
}

/// Reads field `key` as an unsigned integer no larger than `max`.
fn integer_field(fields: &Vec<(String, String)>, key: &str, max: u64) -> (r: Result<u64, String>)
    ensures
        match field_lookup(pairs_view(fields@), key@) {
            None => r is Err && r->Err_0@ == "missing field "@ + key@,
            Some(text) => match decimal_of(text) {
                Some(v) => if v <= max {
                    r is Ok && r->Ok_0 == v
                } else {
                    r is Err && r->Err_0@ == "invalid integer for "@ + key@
                },
                None => r is Err && r->Err_0@ == "invalid integer for "@ + key@,
            },
        },
{
    match field_value(fields, key) {
        None => Err(String::from_str("missing field ").concat(key)),
        Some(text) => match parse_decimal(text.as_str(), max) {
            Some(v) => Ok(v),
            None => Err(String::from_str("invalid integer for ").concat(key)),
        },
    }
}

/// Reads field `key` as a `u64`.
pub fn parse_u64_field(fields: &Vec<(String, String)>, key: &str) -> (r: Result<u64, String>)
    ensures
        match field_lookup(pairs_view(fields@), key@) {
            None => r is Err && r->Err_0@ == "missing field "@ + key@,
            Some(text) => match decimal_of(text) {
                Some(v) => if v <= u64::MAX {
                    r is Ok && r->Ok_0 == v
                } else {
                    r is Err && r->Err_0@ == "invalid integer for "@ + key@
                },
                None => r is Err && r->Err_0@ == "invalid integer for "@ + key@,
            },
        },
{
    integer_field(fields, key, u64::MAX)
}

/// Reads field `key` as a `usize`.
pub fn parse_usize_field(fields: &Vec<(String, String)>, key: &str) -> (r: Result<usize, String>)
    requires
        usize::MAX <= u64::MAX,
    ensures
        match field_lookup(pairs_view(fields@), key@) {
            None => r is Err && r->Err_0@ == "missing field "@ + key@,
            Some(text) => match decimal_of(text) {
                Some(v) => if v <= usize::MAX {
                    r is Ok && r->Ok_0 == v
                } else {
                    r is Err && r->Err_0@ == "invalid integer for "@ + key@
                },
                None => r is Err && r->Err_0@ == "invalid integer for "@ + key@,
            },
        },
{
    match integer_field(fields, key, usize::MAX as u64) {
        Ok(v) => Ok(v as usize),
        Err(e) => Err(e),
    }
}

/// The text after `detail=` in the first segment (after the record tag) that starts
/// with it, scanning `segs[k..]`.
pub open spec fn detail_from(segs: Seq<Seq<char>>, k: int) -> Option<Seq<char>>
    decreases segs.len() - k,
{
    if k >= segs.len() {
        None
    } else if segs[k].len() >= 7 && segs[k].take(7) == "detail="@ {
        Some(segs[k].skip(7))
    } else {
        detail_from(segs, k + 1)
    }
}

/// The detail of a violation line, or `unknown violation`.
pub open spec fn violation_detail(raw: Seq<char>) -> Seq<char> {
    match detail_from(split_on(raw, '|'), 1) {
        Some(d) => d,
        None => "unknown violation"@,
    }
}

/// Reads the detail of a `violation|detail=...` log line.
pub fn parse_violation_detail(raw: &str) -> (r: String)
    ensures
        r@ == violation_detail(raw@),
{
    proof { reveal_strlit("detail="); }
    let segs = split_text(raw, '|');
    let ghost sv = segs@.map_values(|p: String| p@);
    let mut k: usize = 1;
    while k < segs.len()
        invariant
            sv == segs@.map_values(|p: String| p@),
            sv == split_on(raw@, '|'),
            1 <= k,
            detail_from(sv, 1) == detail_from(sv, k as int),
        decreases segs@.len() - k,
    {
        let seg = segs[k].as_str();
        assert(sv[k as int] == seg@);
        let n = seg.unicode_len();
        if n >= 7 && same_prefix_detail(seg) {
            return String::from_str(seg.substring_char(7, n));
        }
        k += 1;
    }
    String::from_str("unknown violation")
}

/// Whether `seg` starts with `detail=`.
fn same_prefix_detail(seg: &str) -> (r: bool)
    requires
        seg@.len() >= 7,
    ensures
        r == (seg@.take(7) == "detail="@),
{
    proof { reveal_strlit("detail="); }
    let p = seg.substring_char(0, 7);
    assert(p@ =~= seg@.take(7));
    crate::cli::same_text(p, "detail=")
}

} // verus!

verus! {

/// Digit characters, in value order.
pub const DIGITS: &'static str = "0123456789abcdef";

/// Character of a digit value below sixteen.
pub open spec fn digit_char(d: nat) -> char {
    DIGITS@[d as int]
}

/// Digits of `n` in base `radix`, most significant first, without leading zeros
/// (zero is the single digit `0`).
pub open spec fn radix_digits(n: nat, radix: nat) -> Seq<char>
    decreases n
    via radix_digits_decreases
{
    if radix < 2 || n < radix {
        seq![digit_char(n)]
    } else {
        radix_digits(n / radix, radix).push(digit_char(n % radix))
    }
}

#[via_fn]
proof fn radix_digits_decreases(n: nat, radix: nat) {
    if !(radix < 2 || n < radix) {
        vstd::arithmetic::div_mod::lemma_div_decreases(n as int, radix as int);
    }
}

/// The last `width` decimal digits of `n`, zero-padded.
pub open spec fn fixed_digits(n: nat, width: nat) -> Seq<char>
    decreases width,
{
    if width == 0 {
        Seq::empty()
    } else {
        fixed_digits(n / 10, (width - 1) as nat).push(digit_char(n % 10))
    }
}

fn push_digit(out: &mut String, d: u128)
    requires
        d < 16,
    ensures
        final(out)@ == old(out)@.push(digit_char(d as nat)),
{
    proof { reveal_strlit("0123456789abcdef"); }
    let k = d as usize;
    let s = DIGITS.substring_char(k, k + 1);
    let ghost before = out@;
    out.append(s);
    assert(out@ =~= before.push(digit_char(d as nat)));
}

/// Appends the base-`radix` digits of `n`.
fn push_radix(out: &mut String, n: u128, radix: u128)
    requires
        2 <= radix <= 16,
    ensures
        final(out)@ == old(out)@ + radix_digits(n as nat, radix as nat),
    decreases n,
{
    if n >= radix {
        proof {
            vstd::arithmetic::div_mod::lemma_div_decreases(n as int, radix as int);
        }
        push_radix(out, n / radix, radix);
    }
    let ghost mid = out@;
    push_digit(out, n % radix);
    proof {
        if n >= radix {
            assert(mid.push(digit_char((n % radix) as nat)) =~= old(out)@ + radix_digits(
                (n / radix) as nat,
                radix as nat,
            ).push(digit_char((n % radix) as nat)));
        } else {
            vstd::arithmetic::div_mod::lemma_small_mod(n as nat, radix as nat);
            assert(out@ =~= old(out)@ + radix_digits(n as nat, radix as nat));
        }
    }
}

/// Appends the last `width` decimal digits of `n`, zero-padded.
fn push_fixed(out: &mut String, n: u128, width: u32)
    ensures
        final(out)@ == old(out)@ + fixed_digits(n as nat, width as nat),
    decreases width,
{
    if width == 0 {
        assert(old(out)@ + fixed_digits(n as nat, 0) =~= old(out)@);
        return;
    }
    push_fixed(out, n / 10, width - 1);
    let ghost mid = out@;
    push_digit(out, n % 10);
    assert(out@ =~= old(out)@ + fixed_digits(n as nat, width as nat));
}

/// Lower-case hexadecimal text of a clock reading, used as a run identifier.
pub fn run_id_for(nanos: u128) -> (r: String)
    ensures
        r@ == radix_digits(nanos as nat, 16),
{
    let mut out = String::new();
    push_radix(&mut out, nanos, 16);
    assert(out@ =~= radix_digits(nanos as nat, 16));
    out
}

/// Text of a clock reading as seconds, a point, and nine digits of nanoseconds.
pub open spec fn timestamp_of(nanos: nat) -> Seq<char> {
    radix_digits(nanos / 1_000_000_000, 10) + seq!['.'] + fixed_digits(nanos % 1_000_000_000, 9)
}

/// Formats nanoseconds since the Unix epoch as `seconds.nanoseconds`.
pub fn timestamp_for(nanos: u128) -> (r: String)
    ensures
        r@ == timestamp_of(nanos as nat),
{
    let mut out = String::new();
    push_radix(&mut out, nanos / 1_000_000_000, 10);
    let ghost mid = out@;
    out.append(".");
    proof { reveal_strlit("."); }
    push_fixed(&mut out, nanos % 1_000_000_000, 9);
    assert(out@ =~= timestamp_of(nanos as nat));
    out
}

/// A run identifier from the current time: its nanoseconds since the epoch in hex.
pub fn generate_run_id() -> (r: String)
    ensures
        exists|nanos: u128| r@ == radix_digits(nanos as nat, 16),
{
    run_id_for(crate::clock::unix_time_nanos())
}

/// The current time as `seconds.nanoseconds` since the Unix epoch.
pub fn current_timestamp() -> (r: String)
    ensures
        exists|nanos: u128| r@ == timestamp_of(nanos as nat),
{
    timestamp_for(crate::clock::unix_time_nanos())
}

/// Writes the text lines of span logs.
#[derive(Debug, Default)]
pub struct LogLineWriter;

/// Text of a violation record.
pub open spec fn violation_line_of(detail: Seq<char>) -> Seq<char> {
    "violation|detail="@ + escaped_field(detail)
}

impl LogLineWriter {
    pub fn new() -> (r: LogLineWriter) {
        LogLineWriter
    }

    /// The log line that records a rule violation with the given detail.
    pub fn violation_line(&self, detail: &str) -> (r: String)
        ensures
            r@ == violation_line_of(detail@),
    {
        let escaped = escape_field(detail);
        String::from_str("violation|detail=").concat(escaped.as_str())
    }
}

} // verus!

verus! {

/// The items joined by commas.
pub open spec fn comma_joined(items: Seq<Seq<char>>) -> Seq<char>
    decreases items.len(),
{
    if items.len() == 0 {
        Seq::empty()
    } else if items.len() == 1 {
        items[0]
    } else {
        comma_joined(items.drop_last()) + seq![','] + items.last()
    }
}

/// Renders trajectories for user interfaces.
#[derive(Debug, Default)]
pub struct TrajectoryVisualizer;

impl TrajectoryVisualizer {
    /// A JSON array of already rendered JSON values, in order.
    pub fn json_array(items: &[String]) -> (r: String)
        ensures
            r@ == seq!['['] + comma_joined(items@.map_values(|s: String| s@)) + seq![']'],
    {
        proof {
            reveal_strlit("[");
            reveal_strlit("]");
            reveal_strlit(",");
        }
        let ghost iv = items@.map_values(|s: String| s@);
        let mut out = String::from_str("[");
        let mut k: usize = 0;
        while k < items.len()
            invariant
                iv == items@.map_values(|s: String| s@),
                k <= items@.len(),
                out@ == seq!['['] + comma_joined(iv.take(k as int)),
            decreases items@.len() - k,
        {
            let ghost before = out@;
            assert(iv.take(k + 1).drop_last() =~= iv.take(k as int));
            assert(iv.take(k + 1).last() == iv[k as int]);
            assert(iv[k as int] == items@[k as int]@);
            if k > 0 {
                proof { reveal_strlit(","); }
                out.append(",");
                out.append(items[k].as_str());
                assert(comma_joined(iv.take(k + 1)) == comma_joined(iv.take(k as int)) + seq![',']
                    + iv[k as int]);
                assert(out@ =~= seq!['['] + comma_joined(iv.take(k + 1)));
            } else {
                out.append(items[k].as_str());
                assert(iv.take(1).len() == 1);
                assert(comma_joined(iv.take(1)) == iv.take(1)[0]);
                assert(out@ =~= seq!['['] + comma_joined(iv.take(k + 1)));
            }
            k += 1;
        }
        assert(iv.take(items@.len() as int) =~= iv);
        out.append("]");
        out
    }
}

} // verus!
