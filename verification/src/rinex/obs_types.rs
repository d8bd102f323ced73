//! The observation-type lines of a RINEX observation header: for version 3
//! one block per system (`SYS / # / OBS TYPES`, 13 types per line), for
//! version 2 one block of the types without their system letter
//! (`# / TYPES OF OBSERV`, 9 per line); the grouping and ordering of the
//! types by system; and the `GLONASS SLOT / FRQ #` block of version 3.

use vstd::prelude::*;
use vstd::string::*;
use vstd::utf8::{char_u32_cast, encode_utf8};
use vstd::seq_lib::{to_multiset_build, to_multiset_contains, to_multiset_insert};
use vstd::arithmetic::div_mod::{lemma_fundamental_div_mod, lemma_mod_pos_bound, lemma_div_decreases};
use crate::util::text::{decimal_text, push_char, text_with_number};
use crate::rinex::header::GlonassFreqChannel;

verus! {

/// `n` spaces.
pub open spec fn spaces(n: nat) -> Seq<char> {
    Seq::new(n, |i: int| ' ')
}

/// `s` right-aligned in a field of `w` characters; longer text is kept whole.
pub open spec fn pad_left(s: Seq<char>, w: nat) -> Seq<char> {
    if s.len() < w {
        spaces((w - s.len()) as nat) + s
    } else {
        s
    }
}

/// The texts of a list of strings.
pub open spec fn texts(v: Seq<String>) -> Seq<Seq<char>> {
    v.map_values(|s: String| s@)
}

/// Whether an observation type has a code: its UTF-8 form has at least
/// three bytes. The code is the type without its first character.
pub open spec fn has_code(t: Seq<char>) -> bool {
    encode_utf8(t).len() >= 3
}

/// Whether the header writer can cut the code from type `t`: the cut falls
/// after the first byte, so a type with a code must start with an ASCII
/// character.
pub open spec fn code_cuttable(t: Seq<char>) -> bool {
    has_code(t) ==> (t[0] as u32) < 128
}

/// Number of lines that `n` fields take at `per` fields a line (one line
/// where there are none).
pub open spec fn line_count(n: nat, per: nat) -> nat {
    if n == 0 {
        1
    } else {
        n / per + if n % per == 0 { 0nat } else { 1nat }
    }
}

/// Fields `from` to `to` of `codes`, each as `sep` and the code
/// right-aligned in `w` characters.
pub open spec fn fields_text(codes: Seq<Seq<char>>, from: int, to: int, sep: Seq<char>, w: nat) -> Seq<char>
    decreases to - from,
{
    if to <= from {
        Seq::empty()
    } else {
        fields_text(codes, from, to - 1, sep, w) + sep + pad_left(codes[to - 1], w)
    }
}

/// Line `j` of a block of observation types: the head (`first_head` on the
/// first line, `next_head` after), up to `per` fields, and the end: on a
/// line that is continued, the label right-aligned in `cont_width`
/// characters where `cont_aligned`, else `cont_width` spaces and the label;
/// on the last line, blank fields up to `per` and the label right-aligned in
/// `cont_width` characters.
pub open spec fn type_line(
    first_head: Seq<char>,
    next_head: Seq<char>,
    codes: Seq<Seq<char>>,
    per: nat,
    sep: Seq<char>,
    w: nat,
    cont_width: nat,
    cont_aligned: bool,
    label: Seq<char>,
    j: int,
) -> Seq<char> {
    let n = codes.len();
    let to = if per * j + per < n { per * j + per } else { n as int };
    let head = if j == 0 { first_head } else { next_head };
    let tail = if j + 1 < line_count(n, per) {
        if cont_aligned { pad_left(label, cont_width) } else { spaces(cont_width) + label }
    } else {
        (if n % per != 0 { spaces(((sep.len() + w) * (per - n % per)) as nat) } else { Seq::empty() }) + pad_left(
            label,
            cont_width,
        )
    };
    head + fields_text(codes, per * j, to, sep, w) + tail
}

/// The codes of the types of system `sys` among the first `n` of `types`,
/// in order.
pub open spec fn v3_codes(types: Seq<Seq<char>>, sys: char, n: nat) -> Seq<Seq<char>>
    decreases n,
{
    if n == 0 {
        Seq::empty()
    } else {
        let t = types[n - 1];
        let prev = v3_codes(types, sys, (n - 1) as nat);
        if has_code(t) && t[0] == sys {
            prev.push(t.drop_first())
        } else {
            prev
        }
    }
}

/// The distinct codes among the first `n` of `types`, each where it first
/// occurs.
pub open spec fn v2_codes(types: Seq<Seq<char>>, n: nat) -> Seq<Seq<char>>
    decreases n,
{
    if n == 0 {
        Seq::empty()
    } else {
        let t = types[n - 1];
        let prev = v2_codes(types, (n - 1) as nat);
        if has_code(t) && !prev.contains(t.drop_first()) {
            prev.push(t.drop_first())
        } else {
            prev
        }
    }
}

/// The version 2 codes of the first `n` types are exactly the codes of those
/// types, each listed once.
pub proof fn lemma_v2_codes_distinct_and_complete(types: Seq<Seq<char>>, n: nat)
    requires
        n <= types.len(),
    ensures
        forall|i: int, j: int|
            0 <= i < j < v2_codes(types, n).len() ==> #[trigger] v2_codes(types, n)[i] != #[trigger] v2_codes(
                types,
                n,
            )[j],
        forall|k: int| 0 <= k < n && has_code(types[k]) ==> v2_codes(types, n).contains(#[trigger] types[k].drop_first()),
        forall|i: int|
            0 <= i < v2_codes(types, n).len() ==> exists|k: int|
                0 <= k < n && has_code(types[k]) && #[trigger] v2_codes(types, n)[i] == types[k].drop_first(),
    decreases n,
{
    if n > 0 {
        lemma_v2_codes_distinct_and_complete(types, (n - 1) as nat);
        let prev = v2_codes(types, (n - 1) as nat);
        let cur = v2_codes(types, n);
        let t = types[n - 1];
        assert forall|i: int, j: int| 0 <= i < j < cur.len() implies #[trigger] cur[i] != #[trigger] cur[j] by {
            if j >= prev.len() {
                assert(cur[j] == t.drop_first());
                assert(cur[i] == prev[i]);
                if cur[i] == cur[j] {
                    assert(prev.contains(t.drop_first()));
                }
            } else {
                assert(cur[i] == prev[i] && cur[j] == prev[j]);
            }
        }
        assert forall|k: int| 0 <= k < n && has_code(types[k]) implies cur.contains(#[trigger] types[k].drop_first()) by {
            if k < n - 1 {
                let x = types[k].drop_first();
                assert(prev.contains(x));
                let q = choose|q: int| 0 <= q < prev.len() && prev[q] == x;
                assert(cur[q] == x);
            } else if !prev.contains(t.drop_first()) {
                assert(cur[cur.len() - 1] == t.drop_first());
            } else {
                let q = choose|q: int| 0 <= q < prev.len() && prev[q] == t.drop_first();
                assert(cur[q] == t.drop_first());
            }
        }
        assert forall|i: int| 0 <= i < cur.len() implies exists|k: int|
            0 <= k < n && has_code(types[k]) && #[trigger] cur[i] == types[k].drop_first() by {
            if i < prev.len() {
                assert(cur[i] == prev[i]);
                let k = choose|k: int| 0 <= k < n - 1 && has_code(types[k]) && prev[i] == types[k].drop_first();
                assert(0 <= k < n && has_code(types[k]) && cur[i] == types[k].drop_first());
            } else {
                assert(0 <= n - 1 < n && has_code(types[n - 1]) && cur[i] == types[n - 1].drop_first());
            }
        }
    }
}

/// Line `j` of the version 3 block of system `sys` with codes `codes`.
pub open spec fn v3_line(sys: char, codes: Seq<Seq<char>>, j: int) -> Seq<char> {
    type_line(
        seq![sys] + pad_left(decimal_text(codes.len()), 3),
        seq![sys] + spaces(3),
        codes,
        13,
        seq![' '],
        3,
        56,
        false,
        "SYS / # / OBS TYPES"@,
        j,
    )
}

/// Line `j` of the version 2 block with codes `codes`.
pub open spec fn v2_line(codes: Seq<Seq<char>>, j: int) -> Seq<char> {
    type_line(
        pad_left(decimal_text(codes.len()), 6),
        spaces(6),
        codes,
        9,
        Seq::empty(),
        6,
        54,
        false,
        "# / TYPES OF OBSERV"@,
        j,
    )
}

/// Appends `n` spaces.
fn push_spaces(s: &mut String, n: usize)
    ensures
        final(s)@ == old(s)@ + spaces(n as nat),
{
    let ghost start = s@;
    let mut i: usize = 0;
    while i < n
        invariant
            i <= n,
            s@ == start + spaces(i as nat),
        decreases n - i,
    {
        push_char(s, ' ');
        proof {
            assert(start + spaces((i + 1) as nat) =~= (start + spaces(i as nat)).push(' '));
        }
        i = i + 1;
    }
}

/// Appends `text` right-aligned in `w` characters.
fn push_padded(s: &mut String, text: &str, w: usize)
    ensures
        final(s)@ == old(s)@ + pad_left(text@, w as nat),
{
    let len = text.unicode_len();
    if len < w {
        push_spaces(s, w - len);
    }
    s.append(text);
    proof {
        assert(final(s)@ =~= old(s)@ + pad_left(text@, w as nat));
    }
}

/// Where line `j` of `n` fields at `per` a line starts: within the fields.
proof fn lemma_line_start(n: int, per: int, j: int)
    requires
        per > 0,
        n > 0,
        0 <= j,
        j < n / per + if n % per == 0 { 0int } else { 1int },
    ensures
        per * j < n,
{
    let q = n / per;
    let r = n % per;
    lemma_fundamental_div_mod(n, per);
    lemma_mod_pos_bound(n, per);
    if r == 0 {
        assert(per * j < n) by (nonlinear_arith)
            requires
                per > 0,
                n > 0,
                n == per * q + r,
                r == 0,
                0 <= j <= q - 1,
        ;
    } else {
        assert(per * j < n) by (nonlinear_arith)
            requires
                per > 0,
                n == per * q + r,
                0 < r < per,
                0 <= j <= q,
        ;
    }
}

/// The lines of a block of observation types, as [`type_line`] describes them.
fn type_lines(
    first_head: &str,
    next_head: &str,
    codes: &Vec<String>,
    per: usize,
    with_space: bool,
    w: usize,
    cont_width: usize,
    cont_aligned: bool,
    label: &str,
) -> (lines: Vec<String>)
    requires
        0 < per <= 13,
        w <= 6,
    ensures
        lines@.len() == line_count(codes@.len(), per as nat),
        forall|j: int|
            0 <= j < lines@.len() ==> #[trigger] lines@[j]@ == type_line(
                first_head@,
                next_head@,
                texts(codes@),
                per as nat,
                if with_space { seq![' '] } else { Seq::<char>::empty() },
                w as nat,
                cont_width as nat,
                cont_aligned,
                label@,
                j,
            ),
{
    let n = codes.len();
    let ghost cs = texts(codes@);
    let ghost sep: Seq<char> = if with_space { seq![' '] } else { Seq::<char>::empty() };
    let mut k: usize = 1;
    if n > 0 {
        k = n / per;
        if n % per != 0 {
            proof {
                if per == 1 {
                    assert(n % per == 0);
                }
                lemma_div_decreases(n as int, per as int);
            }
            k = k + 1;
        }
    }
    assert(k == line_count(n as nat, per as nat));
    let mut lines: Vec<String> = Vec::new();
    let mut j: usize = 0;
    while j < k
        invariant
            n == codes@.len(),
            cs == texts(codes@),
            sep == (if with_space { seq![' '] } else { Seq::<char>::empty() }),
            0 < per <= 13,
            w <= 6,
            k == line_count(n as nat, per as nat),
            j <= k,
            lines@.len() == j,
            forall|q: int|
                0 <= q < j ==> #[trigger] lines@[q]@ == type_line(
                    first_head@,
                    next_head@,
                    cs,
                    per as nat,
                    sep,
                    w as nat,
                    cont_width as nat,
                    cont_aligned,
                    label@,
                    q,
                ),
        decreases k - j,
    {
        proof {
            if n > 0 {
                lemma_line_start(n as int, per as int, j as int);
            }
        }
        let from = per * j;
        let to = if n - from > per { from + per } else { n };
        let mut line = String::new();
        if j == 0 {
            line.append(first_head);
        } else {
            line.append(next_head);
        }
        let ghost head = line@;
        let mut i = from;
        while i < to
            invariant
                from <= i <= to <= n,
                n == codes@.len(),
                cs == texts(codes@),
                sep == (if with_space { seq![' '] } else { Seq::<char>::empty() }),
                line@ == head + fields_text(cs, from as int, i as int, sep, w as nat),
            decreases to - i,
        {
            if with_space {
                push_char(&mut line, ' ');
            }
            push_padded(&mut line, codes[i].as_str(), w);
            proof {
                assert(cs[i as int] == codes@[i as int]@);
                assert(line@ =~= head + fields_text(cs, from as int, (i + 1) as int, sep, w as nat));
            }
            i = i + 1;
        }
        if j + 1 < k {
            if cont_aligned {
                push_padded(&mut line, label, cont_width);
            } else {
                push_spaces(&mut line, cont_width);
                line.append(label);
            }
        } else {
            if n % per != 0 {
                proof {
                    lemma_mod_pos_bound(n as int, per as int);
                }
                let blanks = if with_space { w + 1 } else { w };
                let gap = per - n % per;
                assert(blanks * gap <= 7 * 13) by (nonlinear_arith)
                    requires
                        blanks <= 7,
                        gap <= 13,
                ;
                push_spaces(&mut line, blanks * gap);
            }
            push_padded(&mut line, label, cont_width);
        }
        proof {
            assert(line@ =~= type_line(
                first_head@,
                next_head@,
                cs,
                per as nat,
                sep,
                w as nat,
                cont_width as nat,
                cont_aligned,
                label@,
                j as int,
            ));
        }
        lines.push(line);
        j = j + 1;
    }
    lines
}

/// Whether the first character of `t` is `c`.
fn starts_with_char(t: &str, c: char) -> (b: bool)
    requires
        t@.len() > 0,
    ensures
        b == (t@[0] == c),
{
    t.get_char(0) == c
}

/// The code of type `t`, where it has one: the type without its first character.
fn code_of(t: &String) -> (r: Option<String>)
    requires
        code_cuttable(t@),
    ensures
        has_code(t@) ==> r is Some && r->Some_0@ == t@.drop_first() && t@.len() > 0,
        !has_code(t@) ==> r is None,
{
    let s = t.as_str();
    assert(s@ == t@);
    let bytes = s.as_bytes();
    assert(bytes@ == encode_utf8(t@));
    if bytes.len() >= 3 {
        proof {
            if t@.len() == 0 {
                assert(encode_utf8(t@) =~= Seq::<u8>::empty());
            }
        }
        let n = s.unicode_len();
        let code = s.substring_char(1, n);
        let r = String::from_str(code);
        assert(r@ =~= t@.drop_first());
        Some(r)
    } else {
        None
    }
}

/// Whether `v` holds a string with the text of `s`.
fn contains_text(v: &Vec<String>, s: &String) -> (b: bool)
    ensures
        b == texts(v@).contains(s@),
{
    let mut i: usize = 0;
    while i < v.len()
        invariant
            i <= v@.len(),
            forall|k: int| 0 <= k < i ==> #[trigger] v@[k]@ != s@,
        decreases v@.len() - i,
    {
        if v[i] == *s {
            proof {
                assert(texts(v@)[i as int] == s@);
            }
            return true;
        }
        i = i + 1;
    }
    proof {
        if texts(v@).contains(s@) {
            let k = choose|k: int| 0 <= k < texts(v@).len() && texts(v@)[k] == s@;
            assert(v@[k]@ == s@);
        }
    }
    false
}

/// The number `n` right-aligned in `w` characters, after `prefix`.
fn number_head(prefix: &str, n: usize, w: usize) -> (s: String)
    ensures
        s@ == prefix@ + pad_left(decimal_text(n as nat), w as nat),
{
    let digits = text_with_number("", n as u64);
    proof {
        reveal_strlit("");
        assert(digits@ =~= decimal_text(n as nat));
    }
    let mut s = String::from_str(prefix);
    push_padded(&mut s, digits.as_str(), w);
    s
}

/// The version 3 observation-type lines of system `sys`: the codes of the
/// types of that system (types with a code whose first character is `sys`),
/// 13 to a line, the first line headed by the letter and the count.
pub fn obs_type_lines_v3(obs_types: &Vec<String>, sys: char) -> (lines: Vec<String>)
    requires
        forall|i: int| 0 <= i < obs_types@.len() ==> code_cuttable(#[trigger] obs_types@[i]@),
    ensures
        lines@.len() == line_count(v3_codes(texts(obs_types@), sys, obs_types@.len()).len(), 13),
        forall|j: int|
            0 <= j < lines@.len() ==> #[trigger] lines@[j]@ == v3_line(
                sys,
                v3_codes(texts(obs_types@), sys, obs_types@.len()),
                j,
            ),
{
    let ghost ts = texts(obs_types@);
    let mut codes: Vec<String> = Vec::new();
    let mut i: usize = 0;
    while i < obs_types.len()
        invariant
            i <= obs_types@.len(),
            ts == texts(obs_types@),
            forall|q: int| 0 <= q < obs_types@.len() ==> code_cuttable(#[trigger] obs_types@[q]@),
            texts(codes@) == v3_codes(ts, sys, i as nat),
        decreases obs_types@.len() - i,
    {
        let t = &obs_types[i];
        assert(ts[i as int] == t@);
        let ghost before = codes@;
        match code_of(t) {
            Some(code) => {
                if starts_with_char(t.as_str(), sys) {
                    codes.push(code);
                    proof {
                        assert(texts(codes@) =~= texts(before).push(t@.drop_first()));
                    }
                }
            },
            None => {},
        }
        i = i + 1;
    }
    let mut sys_text = String::new();
    push_char(&mut sys_text, sys);
    let first = number_head(sys_text.as_str(), codes.len(), 3);
    let mut next = String::new();
    push_char(&mut next, sys);
    push_spaces(&mut next, 3);
    let label = "SYS / # / OBS TYPES";
    let lines = type_lines(first.as_str(), next.as_str(), &codes, 13, true, 3, 56, false, label);
    proof {
        assert(first@ =~= seq![sys] + pad_left(decimal_text(codes@.len()), 3));
        assert(next@ =~= seq![sys] + spaces(3));
    }
    lines
}

/// The version 2 observation-type lines: the distinct codes of all types
/// (each where it first occurs), 9 to a line, the first line headed by the
/// count.
pub fn obs_type_lines_v2(obs_types: &Vec<String>) -> (lines: Vec<String>)
    requires
        forall|i: int| 0 <= i < obs_types@.len() ==> code_cuttable(#[trigger] obs_types@[i]@),
    ensures
        lines@.len() == line_count(v2_codes(texts(obs_types@), obs_types@.len()).len(), 9),
        forall|j: int|
            0 <= j < lines@.len() ==> #[trigger] lines@[j]@ == v2_line(v2_codes(texts(obs_types@), obs_types@.len()), j),
{
    let ghost ts = texts(obs_types@);
    let mut codes: Vec<String> = Vec::new();
    let mut i: usize = 0;
    while i < obs_types.len()
        invariant
            i <= obs_types@.len(),
            ts == texts(obs_types@),
            forall|q: int| 0 <= q < obs_types@.len() ==> code_cuttable(#[trigger] obs_types@[q]@),
            texts(codes@) == v2_codes(ts, i as nat),
        decreases obs_types@.len() - i,
    {
        let t = &obs_types[i];
        assert(ts[i as int] == t@);
        let ghost before = codes@;
        match code_of(t) {
            Some(code) => {
                if !contains_text(&codes, &code) {
                    codes.push(code);
                    proof {
                        assert(texts(codes@) =~= texts(before).push(t@.drop_first()));
                    }
                }
            },
            None => {},
        }
        i = i + 1;
    }
    let first = number_head("", codes.len(), 6);
    let mut next = String::new();
    push_spaces(&mut next, 6);
    let label = "# / TYPES OF OBSERV";
    let lines = type_lines(first.as_str(), next.as_str(), &codes, 9, false, 6, 54, false, label);
    proof {
        reveal_strlit("");
        assert(first@ =~= pad_left(decimal_text(codes@.len()), 6));
        assert(next@ =~= spaces(6));
    }
    lines
}

/// A type without its system letter (the empty type stays empty).
pub open spec fn without_system(t: Seq<char>) -> Seq<char> {
    if t.len() == 0 {
        t
    } else {
        t.drop_first()
    }
}

/// `start` followed by the types among the first `n` of `types` without
/// their system letter, each added where it is not yet listed.
pub open spec fn merged_codes(start: Seq<Seq<char>>, types: Seq<Seq<char>>, n: nat) -> Seq<Seq<char>>
    decreases n,
{
    if n == 0 {
        start
    } else {
        let prev = merged_codes(start, types, (n - 1) as nat);
        let c = without_system(types[n - 1]);
        if prev.contains(c) {
            prev
        } else {
            prev.push(c)
        }
    }
}

/// Adds to `all` the types of `types` without their system letter, each
/// where it is not yet listed, in order: the type list of a version 2
/// observation record.
pub fn merge_codes(all: &mut Vec<String>, types: &Vec<String>)
    ensures
        texts(final(all)@) == merged_codes(texts(old(all)@), texts(types@), types@.len()),
{
    let ghost start = texts(all@);
    let ghost ts = texts(types@);
    let mut i: usize = 0;
    while i < types.len()
        invariant
            i <= types@.len(),
            ts == texts(types@),
            texts(all@) == merged_codes(start, ts, i as nat),
        decreases types@.len() - i,
    {
        let t = types[i].as_str();
        assert(ts[i as int] == t@);
        let n = t.unicode_len();
        let code = if n == 0 {
            String::new()
        } else {
            String::from_str(t.substring_char(1, n))
        };
        assert(code@ =~= without_system(t@));
        let ghost before = all@;
        if !contains_text(all, &code) {
            all.push(code);
            proof {
                assert(texts(all@) =~= texts(before).push(without_system(t@)));
            }
        }
        i = i + 1;
    }
}

/// Whether text `a` comes no later than `b` in character order: a proper
/// prefix comes first; otherwise the first differing character decides.
pub open spec fn text_le(a: Seq<char>, b: Seq<char>) -> bool
    decreases a.len(),
{
    if a.len() == 0 {
        true
    } else if b.len() == 0 {
        false
    } else if a[0] != b[0] {
        (a[0] as u32) < (b[0] as u32)
    } else {
        text_le(a.drop_first(), b.drop_first())
    }
}

/// Any two texts are ordered one way or the other.
pub proof fn lemma_text_le_total(a: Seq<char>, b: Seq<char>)
    ensures
        text_le(a, b) || text_le(b, a),
    decreases a.len(),
{
    if a.len() > 0 && b.len() > 0 {
        if a[0] == b[0] {
            lemma_text_le_total(a.drop_first(), b.drop_first());
        } else {
            char_u32_cast(a[0], a[0] as u32);
            char_u32_cast(b[0], b[0] as u32);
        }
    }
}

/// The order is transitive.
pub proof fn lemma_text_le_transitive(a: Seq<char>, b: Seq<char>, c: Seq<char>)
    requires
        text_le(a, b),
        text_le(b, c),
    ensures
        text_le(a, c),
    decreases a.len(),
{
    if a.len() > 0 && b.len() > 0 && c.len() > 0 && a[0] == b[0] && b[0] == c[0] {
        lemma_text_le_transitive(a.drop_first(), b.drop_first(), c.drop_first());
    }
}

/// Comparing the texts after a common prefix decides as comparing the whole.
proof fn lemma_text_le_skip(a: Seq<char>, b: Seq<char>, i: int)
    requires
        0 <= i <= a.len(),
        i <= b.len(),
        a.take(i) == b.take(i),
    ensures
        text_le(a, b) == text_le(a.skip(i), b.skip(i)),
    decreases i,
{
    if i > 0 {
        assert(a[0] == a.take(i)[0]);
        assert(b[0] == b.take(i)[0]);
        assert(a.drop_first().take(i - 1) =~= a.take(i).drop_first());
        assert(b.drop_first().take(i - 1) =~= b.take(i).drop_first());
        lemma_text_le_skip(a.drop_first(), b.drop_first(), i - 1);
        assert(a.drop_first().skip(i - 1) =~= a.skip(i));
        assert(b.drop_first().skip(i - 1) =~= b.skip(i));
    } else {
        assert(a.skip(0) =~= a);
        assert(b.skip(0) =~= b);
    }
}

/// Whether `a` comes no later than `b` in character order.
fn text_le_exec(a: &str, b: &str) -> (r: bool)
    ensures
        r == text_le(a@, b@),
{
    let la = a.unicode_len();
    let lb = b.unicode_len();
    let mut i: usize = 0;
    proof {
        assert(a@.take(0) =~= b@.take(0));
        lemma_text_le_skip(a@, b@, 0);
    }
    while i < la && i < lb
        invariant
            la == a@.len(),
            lb == b@.len(),
            i <= la,
            i <= lb,
            a@.take(i as int) == b@.take(i as int),
            text_le(a@, b@) == text_le(a@.skip(i as int), b@.skip(i as int)),
        decreases la - i,
    {
        let ca = a.get_char(i);
        let cb = b.get_char(i);
        if ca != cb {
            proof {
                assert(a@.skip(i as int)[0] == ca);
                assert(b@.skip(i as int)[0] == cb);
            }
            return (ca as u32) < (cb as u32);
        }
        proof {
            assert(a@.take(i + 1) =~= a@.take(i as int).push(ca));
            assert(b@.take(i + 1) =~= b@.take(i as int).push(cb));
            assert(a@.skip(i as int).drop_first() =~= a@.skip(i + 1));
            assert(b@.skip(i as int).drop_first() =~= b@.skip(i + 1));
        }
        i = i + 1;
    }
    i == la
}

/// Adds `t` to `list` unless a string with its text is already there.
pub fn add_distinct(list: &mut Vec<String>, t: &String)
    ensures
        texts(old(list)@).contains(t@) ==> final(list)@ == old(list)@,
        !texts(old(list)@).contains(t@) ==> texts(final(list)@) == texts(old(list)@).push(t@),
{
    if !contains_text(list, t) {
        let ghost before = list@;
        list.push(t.clone());
        proof {
            assert(texts(list@) =~= texts(before).push(t@));
        }
    }
}

/// `list` put in character order, with repeats kept: the sorted observation
/// types of a system.
pub fn sort_texts(list: &Vec<String>) -> (sorted: Vec<String>)
    ensures
        texts(sorted@).to_multiset() == texts(list@).to_multiset(),
        forall|i: int, j: int| 0 <= i < j < sorted@.len() ==> text_le(sorted@[i]@, sorted@[j]@),
{
    let mut out: Vec<String> = Vec::new();
    let mut i: usize = 0;
    proof {
        assert(texts(list@).take(0) =~= Seq::<Seq<char>>::empty());
        assert(texts(out@) =~= Seq::<Seq<char>>::empty());
    }
    while i < list.len()
        invariant
            i <= list@.len(),
            texts(out@).to_multiset() == texts(list@).take(i as int).to_multiset(),
            forall|a: int, b: int| 0 <= a < b < out@.len() ==> text_le(out@[a]@, out@[b]@),
        decreases list@.len() - i,
    {
        let k = list[i].clone();
        let mut p: usize = 0;
        while p < out.len() && text_le_exec(out[p].as_str(), k.as_str())
            invariant
                p <= out@.len(),
                forall|a: int| 0 <= a < p ==> text_le(out@[a]@, k@),
                texts(out@).to_multiset() == texts(list@).take(i as int).to_multiset(),
                forall|a: int, b: int| 0 <= a < b < out@.len() ==> text_le(out@[a]@, out@[b]@),
            decreases out@.len() - p,
        {
            p = p + 1;
        }
        let ghost before = out@;
        proof {
            assert forall|a: int| p <= a < before.len() implies text_le(k@, #[trigger] before[a]@) by {
                lemma_text_le_total(before[p as int]@, k@);
                if p < a {
                    lemma_text_le_transitive(k@, before[p as int]@, before[a]@);
                }
            }
        }
        out.insert(p, k);
        proof {
            assert(texts(list@)[i as int] == k@);
            assert(texts(list@).take(i + 1) =~= texts(list@).take(i as int).push(k@));
            assert(texts(out@) =~= texts(before).insert(p as int, k@));
            to_multiset_insert(texts(before), p as int, k@);
            to_multiset_build(texts(list@).take(i as int), k@);
            assert forall|a: int, b: int| 0 <= a < b < out@.len() implies text_le(out@[a]@, out@[b]@) by {
                if b < p {
                    assert(out@[a] == before[a] && out@[b] == before[b]);
                } else if b == p {
                    assert(out@[a] == before[a]);
                } else if a < p {
                    assert(out@[a] == before[a] && out@[b] == before[b - 1]);
                    lemma_text_le_transitive(before[a]@, k@, before[b - 1]@);
                } else if a == p {
                    assert(out@[b] == before[b - 1]);
                } else {
                    assert(out@[a] == before[a - 1] && out@[b] == before[b - 1]);
                }
            }
        }
        i = i + 1;
    }
    proof {
        assert(texts(list@).take(list@.len() as int) =~= texts(list@));
    }
    out
}

/// Whether satellite text `s` belongs to system `c`: it starts with `c`.
pub open spec fn of_system(s: Seq<char>, c: char) -> bool {
    s.len() > 0 && s[0] == c
}

/// Whether one of the first `n` entries (satellite text and its observation
/// types) is of system `c` and has type `t`.
pub open spec fn type_seen(entries: Seq<(String, Vec<String>)>, n: int, c: char, t: Seq<char>) -> bool {
    exists|e: int| 0 <= e < n && #[trigger] of_system(entries[e].0@, c) && texts(entries[e].1@).contains(t)
}

/// Whether one of the first `n` entries is of system `c`.
pub open spec fn system_seen(entries: Seq<(String, Vec<String>)>, n: int, c: char) -> bool {
    exists|e: int| 0 <= e < n && #[trigger] of_system(entries[e].0@, c)
}

/// Whether `s` holds `c`.
fn has_char(s: &Vec<char>, c: char) -> (b: bool)
    ensures
        b == s@.contains(c),
{
    let mut i: usize = 0;
    while i < s.len()
        invariant
            i <= s@.len(),
            forall|k: int| 0 <= k < i ==> s@[k] != c,
        decreases s@.len() - i,
    {
        if s[i] == c {
            assert(s@[i as int] == c);
            return true;
        }
        i = i + 1;
    }
    false
}

/// The systems of the entries (the first character of each nonempty
/// satellite text), each once, in order of first appearance.
pub fn entry_systems(entries: &Vec<(String, Vec<String>)>) -> (r: Vec<char>)
    ensures
        r@.no_duplicates(),
        forall|c: char| r@.contains(c) <==> system_seen(entries@, entries@.len() as int, c),
{
    let mut r: Vec<char> = Vec::new();
    let mut e: usize = 0;
    while e < entries.len()
        invariant
            e <= entries@.len(),
            r@.no_duplicates(),
            forall|c: char| r@.contains(c) <==> system_seen(entries@, e as int, c),
        decreases entries@.len() - e,
    {
        let prn = entries[e].0.as_str();
        let ghost before = r@;
        if prn.unicode_len() > 0 {
            let c = prn.get_char(0);
            assert(of_system(entries@[e as int].0@, c));
            if !has_char(&r, c) {
                r.push(c);
            }
            proof {
                assert forall|d: char| r@.contains(d) <==> system_seen(entries@, e + 1, d) by {
                    if r@.contains(d) {
                        let k = choose|k: int| 0 <= k < r@.len() && #[trigger] r@[k] == d;
                        if k < before.len() {
                            assert(before[k] == d);
                        }
                    }
                    if before.contains(d) {
                        let k = choose|k: int| 0 <= k < before.len() && #[trigger] before[k] == d;
                        assert(r@[k] == d);
                    }
                    if system_seen(entries@, e + 1, d) {
                        let x = choose|x: int| 0 <= x < e + 1 && #[trigger] of_system(entries@[x].0@, d);
                        if x < e {
                            assert(system_seen(entries@, e as int, d));
                        } else if !before.contains(c) {
                            assert(r@[r@.len() - 1] == d);
                        }
                    }
                    if system_seen(entries@, e as int, d) {
                        let x = choose|x: int| 0 <= x < e && #[trigger] of_system(entries@[x].0@, d);
                        assert(0 <= x < e + 1 && of_system(entries@[x].0@, d));
                    }
                }
            }
        } else {
            proof {
                assert forall|d: char| r@.contains(d) <==> system_seen(entries@, e + 1, d) by {
                    if system_seen(entries@, e + 1, d) {
                        let x = choose|x: int| 0 <= x < e + 1 && #[trigger] of_system(entries@[x].0@, d);
                        assert(x < e);
                        assert(system_seen(entries@, e as int, d));
                    }
                    if system_seen(entries@, e as int, d) {
                        let x = choose|x: int| 0 <= x < e && #[trigger] of_system(entries@[x].0@, d);
                        assert(0 <= x < e + 1 && of_system(entries@[x].0@, d));
                    }
                }
            }
        }
        e = e + 1;
    }
    r
}

/// The observation types of the satellites of system `sys` among the
/// entries: each type once, in character order.
pub fn system_types(entries: &Vec<(String, Vec<String>)>, sys: char) -> (r: Vec<String>)
    ensures
        forall|t: Seq<char>| texts(r@).contains(t) <==> type_seen(entries@, entries@.len() as int, sys, t),
        forall|i: int, j: int| 0 <= i < j < r@.len() ==> text_le(r@[i]@, r@[j]@) && r@[i]@ != r@[j]@,
{
    let mut list: Vec<String> = Vec::new();
    let mut e: usize = 0;
    while e < entries.len()
        invariant
            e <= entries@.len(),
            texts(list@).no_duplicates(),
            forall|t: Seq<char>| texts(list@).contains(t) <==> type_seen(entries@, e as int, sys, t),
        decreases entries@.len() - e,
    {
        let prn = entries[e].0.as_str();
        let ghost start = list@;
        if prn.unicode_len() > 0 && prn.get_char(0) == sys {
            let types = &entries[e].1;
            assert(of_system(entries@[e as int].0@, sys));
            let mut j: usize = 0;
            while j < types.len()
                invariant
                    j <= types@.len(),
                    types == entries@[e as int].1,
                    of_system(entries@[e as int].0@, sys),
                    texts(list@).no_duplicates(),
                    forall|t: Seq<char>| texts(list@).contains(t) <==> (type_seen(entries@, e as int, sys, t)
                        || texts(types@).take(j as int).contains(t)),
                decreases types@.len() - j,
            {
                let ghost before = list@;
                let ghost tj = types@[j as int]@;
                add_distinct(&mut list, &types[j]);
                proof {
                    assert(texts(types@)[j as int] == tj);
                    assert(texts(types@).take(j + 1) =~= texts(types@).take(j as int).push(tj));
                    assert forall|t: Seq<char>| texts(list@).contains(t) <==> (type_seen(entries@, e as int, sys, t)
                        || texts(types@).take(j + 1).contains(t)) by {
                        let pre = texts(types@).take(j as int);
                        let pre1 = texts(types@).take(j + 1);
                        if pre1.contains(t) {
                            let k = choose|k: int| 0 <= k < pre1.len() && #[trigger] pre1[k] == t;
                            if k < pre.len() {
                                assert(pre[k] == t);
                            }
                        }
                        if pre.contains(t) {
                            let k = choose|k: int| 0 <= k < pre.len() && #[trigger] pre[k] == t;
                            assert(pre1[k] == t);
                        }
                        if t == tj {
                            assert(pre1[pre.len() as int] == t);
                        }
                        if texts(list@).contains(t) && !texts(before).contains(t) {
                            let k = choose|k: int| 0 <= k < texts(list@).len() && #[trigger] texts(list@)[k] == t;
                            assert(k == texts(before).len());
                        }
                        if texts(before).contains(t) {
                            let k = choose|k: int| 0 <= k < texts(before).len() && #[trigger] texts(before)[k] == t;
                            assert(texts(list@)[k] == t);
                        }
                        if t == tj && !texts(before).contains(t) {
                            assert(texts(list@)[texts(list@).len() - 1] == t);
                        }
                    }
                    assert forall|a: int, b: int| 0 <= a < texts(list@).len() && 0 <= b < texts(list@).len() && a != b
                        implies texts(list@)[a] != texts(list@)[b] by {
                        if !texts(before).contains(tj) {
                            if a == texts(before).len() {
                                assert(texts(before)[b] == texts(list@)[b]);
                            } else if b == texts(before).len() {
                                assert(texts(before)[a] == texts(list@)[a]);
                            } else {
                                assert(texts(before)[a] == texts(list@)[a] && texts(before)[b] == texts(list@)[b]);
                            }
                        }
                    }
                }
                j = j + 1;
            }
            proof {
                assert(texts(types@).take(types@.len() as int) =~= texts(types@));
                assert forall|t: Seq<char>| texts(list@).contains(t) <==> type_seen(entries@, e + 1, sys, t) by {
                    if type_seen(entries@, e + 1, sys, t) {
                        let x = choose|x: int|
                            0 <= x < e + 1 && #[trigger] of_system(entries@[x].0@, sys) && texts(entries@[x].1@).contains(t);
                        if x < e {
                            assert(type_seen(entries@, e as int, sys, t));
                        }
                    }
                    if type_seen(entries@, e as int, sys, t) {
                        let x = choose|x: int|
                            0 <= x < e && #[trigger] of_system(entries@[x].0@, sys) && texts(entries@[x].1@).contains(t);
                        assert(0 <= x < e + 1 && of_system(entries@[x].0@, sys) && texts(entries@[x].1@).contains(t));
                    }
                    if texts(types@).contains(t) {
                        assert(0 <= e < e + 1 && of_system(entries@[e as int].0@, sys) && texts(entries@[e as int].1@).contains(t));
                    }
                }
            }
        } else {
            proof {
                assert(!of_system(entries@[e as int].0@, sys));
                assert forall|t: Seq<char>| texts(list@).contains(t) <==> type_seen(entries@, e + 1, sys, t) by {
                    if type_seen(entries@, e + 1, sys, t) {
                        let x = choose|x: int|
                            0 <= x < e + 1 && #[trigger] of_system(entries@[x].0@, sys) && texts(entries@[x].1@).contains(t);
                        assert(x < e);
                        assert(type_seen(entries@, e as int, sys, t));
                    }
                    if type_seen(entries@, e as int, sys, t) {
                        let x = choose|x: int|
                            0 <= x < e && #[trigger] of_system(entries@[x].0@, sys) && texts(entries@[x].1@).contains(t);
                        assert(0 <= x < e + 1 && of_system(entries@[x].0@, sys) && texts(entries@[x].1@).contains(t));
                    }
                }
            }
        }
        e = e + 1;
    }
    let sorted = sort_texts(&list);
    proof {
        texts(list@).lemma_multiset_has_no_duplicates();
        assert forall|t: Seq<char>| texts(sorted@).contains(t) <==> texts(list@).contains(t) by {
            to_multiset_contains(texts(sorted@), t);
            to_multiset_contains(texts(list@), t);
        }
        assert forall|x: Seq<char>| texts(sorted@).to_multiset().contains(x) implies texts(sorted@).to_multiset().count(x) == 1 by {
        }
        texts(sorted@).lemma_multiset_has_no_duplicates_conv();
        assert forall|i: int, j: int| 0 <= i < j < sorted@.len() implies text_le(sorted@[i]@, sorted@[j]@) && sorted@[i]@ != sorted@[j]@ by {
            assert(texts(sorted@)[i] == sorted@[i]@ && texts(sorted@)[j] == sorted@[j]@);
        }
    }
    sorted
}

/// `n` in decimal, with a leading zero below 10.
pub open spec fn two_digits(n: nat) -> Seq<char> {
    if n < 10 {
        seq!['0'] + decimal_text(n)
    } else {
        decimal_text(n)
    }
}

/// `v` in decimal, with a minus sign where it is negative.
pub open spec fn signed_text(v: int) -> Seq<char> {
    if v < 0 {
        seq!['-'] + decimal_text((-v) as nat)
    } else {
        decimal_text(v as nat)
    }
}

/// The header entry of a GLONASS channel: `R`, the slot in two digits and the
/// frequency number right-aligned in two characters.
pub open spec fn channel_text(c: GlonassFreqChannel) -> Seq<char> {
    seq!['R'] + two_digits(c.prn as nat) + pad_left(signed_text(c.freq_num as int), 2)
}

/// Line `j` of the `GLONASS SLOT / FRQ #` block of `channels`: the count
/// right-aligned in three characters, then eight entries to a line, each
/// after a space; every line ends in the label right-aligned in 56
/// characters.
pub open spec fn glonass_line(channels: Seq<GlonassFreqChannel>, j: int) -> Seq<char> {
    type_line(
        pad_left(decimal_text(channels.len()), 3),
        spaces(3),
        channels.map_values(|c: GlonassFreqChannel| channel_text(c)),
        8,
        seq![' '],
        4,
        56,
        true,
        "GLONASS SLOT / FRQ #"@,
        j,
    )
}

/// The header entry of a GLONASS channel.
fn channel_entry(c: &GlonassFreqChannel) -> (s: String)
    ensures
        s@ == channel_text(*c),
{
    proof {
        reveal_strlit("");
    }
    let mut s = String::new();
    push_char(&mut s, 'R');
    if c.prn < 10 {
        push_char(&mut s, '0');
    }
    let slot = text_with_number("", c.prn as u64);
    s.append(slot.as_str());
    let freq = if c.freq_num < 0 {
        let mut t = String::new();
        push_char(&mut t, '-');
        let magnitude = text_with_number("", (-(c.freq_num as i16)) as u64);
        t.append(magnitude.as_str());
        t
    } else {
        text_with_number("", c.freq_num as u64)
    };
    assert(freq@ =~= signed_text(c.freq_num as int));
    push_padded(&mut s, freq.as_str(), 2);
    proof {
        assert(s@ =~= channel_text(*c));
    }
    s
}

/// The lines of the `GLONASS SLOT / FRQ #` block of a version 3 header.
pub fn glonass_channel_lines(channels: &Vec<GlonassFreqChannel>) -> (lines: Vec<String>)
    ensures
        lines@.len() == line_count(channels@.len(), 8),
        forall|j: int| 0 <= j < lines@.len() ==> #[trigger] lines@[j]@ == glonass_line(channels@, j),
{
    let ghost entries = channels@.map_values(|c: GlonassFreqChannel| channel_text(c));
    let mut codes: Vec<String> = Vec::new();
    let mut i: usize = 0;
    while i < channels.len()
        invariant
            i <= channels@.len(),
            entries == channels@.map_values(|c: GlonassFreqChannel| channel_text(c)),
            texts(codes@) == entries.take(i as int),
        decreases channels@.len() - i,
    {
        let e = channel_entry(&channels[i]);
        let ghost before = codes@;
        codes.push(e);
        proof {
            assert(entries[i as int] == channel_text(channels@[i as int]));
            assert(texts(codes@) =~= texts(before).push(entries[i as int]));
            assert(entries.take(i + 1) =~= entries.take(i as int).push(entries[i as int]));
        }
        i = i + 1;
    }
    proof {
        assert(entries.take(channels@.len() as int) =~= entries);
    }
    let first = number_head("", channels.len(), 3);
    let mut next = String::new();
    push_spaces(&mut next, 3);
    let label = "GLONASS SLOT / FRQ #";
    let lines = type_lines(first.as_str(), next.as_str(), &codes, 8, true, 4, 56, true, label);
    proof {
        reveal_strlit("");
        assert(first@ =~= pad_left(decimal_text(channels@.len()), 3));
        assert(next@ =~= spaces(3));
    }
    lines
}

} // verus!
