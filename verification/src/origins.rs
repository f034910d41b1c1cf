use vstd::prelude::*;

verus! {

/// Whether `c` has the Unicode `White_Space` property, the set of characters
/// that `str::trim` strips.
pub open spec fn spec_is_whitespace(c: char) -> bool {
    ||| ('\u{9}' <= c && c <= '\u{d}')
    ||| c == ' '
    ||| c == '\u{85}'
    ||| c == '\u{a0}'
    ||| c == '\u{1680}'
    ||| ('\u{2000}' <= c && c <= '\u{200a}')
    ||| c == '\u{2028}'
    ||| c == '\u{2029}'
    ||| c == '\u{202f}'
    ||| c == '\u{205f}'
    ||| c == '\u{3000}'
}

/// Whether `c` is Unicode white space.
pub fn is_whitespace(c: char) -> (b: bool)
    ensures
        b == spec_is_whitespace(c),
{
    ('\u{9}' <= c && c <= '\u{d}') || c == ' ' || c == '\u{85}' || c == '\u{a0}' || c == '\u{1680}'
        || ('\u{2000}' <= c && c <= '\u{200a}') || c == '\u{2028}' || c == '\u{2029}' || c
        == '\u{202f}' || c == '\u{205f}' || c == '\u{3000}'
}

/// `s` without its leading white space.
pub open spec fn trim_start(s: Seq<char>) -> Seq<char>
    decreases s.len(),
{
    if s.len() > 0 && spec_is_whitespace(s[0]) {
        trim_start(s.drop_first())
    } else {
        s
    }
}

/// `s` without its trailing white space.
pub open spec fn trim_end(s: Seq<char>) -> Seq<char>
    decreases s.len(),
{
    if s.len() > 0 && spec_is_whitespace(s.last()) {
        trim_end(s.drop_last())
    } else {
        s
    }
}

/// `s` without leading and trailing white space.
pub open spec fn trim(s: Seq<char>) -> Seq<char> {
    trim_end(trim_start(s))
}

/// The pieces of `s` between commas; `n` commas give `n + 1` pieces, empty
/// ones included.
pub open spec fn split_commas(s: Seq<char>) -> Seq<Seq<char>>
    decreases s.len(),
{
    if s.len() == 0 {
        seq![Seq::empty()]
    } else {
        let pieces = split_commas(s.drop_last());
        if s.last() == ',' {
            pieces.push(Seq::empty())
        } else {
            pieces.update(pieces.len() - 1, pieces.last().push(s.last()))
        }
    }
}

/// The entries that a comma-separated list names: each piece trimmed, empty
/// pieces dropped.
pub open spec fn comma_entries(s: Seq<char>) -> Seq<Seq<char>> {
    split_commas(s).map_values(|p: Seq<char>| trim(p)).filter(|p: Seq<char>| p.len() > 0)
}

/// The origin the desktop and mobile app always uses.
pub open spec fn required_origin() -> Seq<char> {
    "http://tauri.localhost"@
}

/// `origins` with the required origin added at the end unless present.
pub open spec fn with_required(origins: Seq<Seq<char>>) -> Seq<Seq<char>> {
    if origins.contains(required_origin()) {
        origins
    } else {
        origins.push(required_origin())
    }
}

/// The entries of `list` joined by `sep`.
pub open spec fn join(list: Seq<Seq<char>>, sep: Seq<char>) -> Seq<char>
    decreases list.len(),
{
    if list.len() == 0 {
        Seq::empty()
    } else if list.len() == 1 {
        list[0]
    } else {
        join(list.drop_last(), sep) + sep + list.last()
    }
}

/// The allowed-origins setting as stored after configuration is read.
pub open spec fn spec_normalize_allowed_origins(s: Seq<char>) -> Seq<char> {
    join(with_required(comma_entries(s)), ","@)
}


/// The strings that the character ranges `ranges` of `s` cover.
pub open spec fn range_strs(s: Seq<char>, ranges: Seq<(usize, usize)>) -> Seq<Seq<char>> {
    ranges.map_values(|r: (usize, usize)| s.subrange(r.0 as int, r.1 as int))
}

/// Narrows the range `a0..b0` of `s` to its trimmed part.
fn trim_range(s: &str, a0: usize, b0: usize) -> (r: (usize, usize))
    requires
        a0 <= b0 <= s@.len(),
    ensures
        a0 <= r.0 <= r.1 <= b0,
        s@.subrange(r.0 as int, r.1 as int) == trim(s@.subrange(a0 as int, b0 as int)),
{
    let mut a = a0;
    while a < b0 && is_whitespace(s.get_char(a))
        invariant
            a0 <= a <= b0,
            b0 <= s@.len(),
            trim_start(s@.subrange(a0 as int, b0 as int)) == trim_start(
                s@.subrange(a as int, b0 as int),
            ),
        decreases b0 - a,
    {
        assert(s@.subrange(a as int, b0 as int).drop_first() =~= s@.subrange(a + 1, b0 as int));
        a += 1;
    }
    assert(trim_start(s@.subrange(a as int, b0 as int)) == s@.subrange(a as int, b0 as int));
    let mut b = b0;
    while b > a && is_whitespace(s.get_char(b - 1))
        invariant
            a <= b <= b0,
            b0 <= s@.len(),
            trim_end(s@.subrange(a as int, b0 as int)) == trim_end(s@.subrange(a as int, b as int)),
        decreases b - a,
    {
        assert(s@.subrange(a as int, b as int).drop_last() =~= s@.subrange(a as int, b - 1));
        b -= 1;
    }
    assert(trim_end(s@.subrange(a as int, b as int)) == s@.subrange(a as int, b as int));
    (a, b)
}

/// Whether the range `a..b` of `s` spells `lit`.
fn range_equals(s: &str, a: usize, b: usize, lit: &str) -> (eq: bool)
    requires
        a <= b <= s@.len(),
    ensures
        eq == (s@.subrange(a as int, b as int) == lit@),
{
    let len = lit.unicode_len();
    if b - a != len {
        return false;
    }
    let mut k: usize = 0;
    while k < len
        invariant
            k <= len,
            len == lit@.len(),
            b - a == len,
            b <= s@.len(),
            forall|j: int| 0 <= j < k ==> s@[a + j] == lit@[j],
        decreases len - k,
    {
        if s.get_char(a + k) != lit.get_char(k) {
            assert(s@.subrange(a as int, b as int)[k as int] != lit@[k as int]);
            return false;
        }
        k += 1;
    }
    assert(s@.subrange(a as int, b as int) =~= lit@);
    true
}

proof fn lemma_listed_push(done: Seq<Seq<char>>, p: Seq<char>)
    ensures
        done.push(p).map_values(|q: Seq<char>| trim(q)).filter(|q: Seq<char>| q.len() > 0) == if trim(
            p,
        ).len() > 0 {
            done.map_values(|q: Seq<char>| trim(q)).filter(|q: Seq<char>| q.len() > 0).push(trim(p))
        } else {
            done.map_values(|q: Seq<char>| trim(q)).filter(|q: Seq<char>| q.len() > 0)
        },
{
    reveal(Seq::filter);
    let m = done.push(p).map_values(|q: Seq<char>| trim(q));
    assert(m.drop_last() =~= done.map_values(|q: Seq<char>| trim(q)));
    assert(m.last() == trim(p));
}

/// Records the piece `cur..end` of `s`, trimmed, unless it is empty.
fn push_piece(
    s: &str,
    ranges: &mut Vec<(usize, usize)>,
    cur: usize,
    end: usize,
    Ghost(done): Ghost<Seq<Seq<char>>>,
)
    requires
        cur <= end <= s@.len(),
        range_strs(s@, old(ranges)@) == done.map_values(|q: Seq<char>| trim(q)).filter(
            |q: Seq<char>| q.len() > 0,
        ),
        forall|k: int|
            0 <= k < old(ranges)@.len() ==> #[trigger] old(ranges)@[k].0 <= old(ranges)@[k].1
                <= s@.len(),
    ensures
        range_strs(s@, final(ranges)@) == done.push(s@.subrange(cur as int, end as int)).map_values(
            |q: Seq<char>| trim(q),
        ).filter(|q: Seq<char>| q.len() > 0),
        forall|k: int|
            0 <= k < final(ranges)@.len() ==> #[trigger] final(ranges)@[k].0 <= final(ranges)@[k].1
                <= s@.len(),
{
    let r = trim_range(s, cur, end);
    proof {
        lemma_listed_push(done, s@.subrange(cur as int, end as int));
    }
    if r.0 < r.1 {
        let ghost prev = ranges@;
        ranges.push(r);
        proof {
            assert(range_strs(s@, ranges@) =~= range_strs(s@, prev).push(
                s@.subrange(r.0 as int, r.1 as int),
            ));
        }
    } else {
        assert(trim(s@.subrange(cur as int, end as int)).len() == 0);
    }
}

fn entry_ranges(s: &str) -> (ranges: Vec<(usize, usize)>)
    ensures
        range_strs(s@, ranges@) == comma_entries(s@),
        forall|k: int| 0 <= k < ranges@.len() ==> #[trigger] ranges@[k].0 <= ranges@[k].1 <= s@.len(),
{
    let n = s.unicode_len();
    let mut ranges: Vec<(usize, usize)> = Vec::new();
    let ghost mut done: Seq<Seq<char>> = Seq::empty();
    let mut cur: usize = 0;
    let mut i: usize = 0;
    assert(s@.take(0) =~= Seq::<char>::empty());
    assert(s@.subrange(0, 0) =~= Seq::<char>::empty());
    assert(range_strs(s@, ranges@) =~= done.map_values(|q: Seq<char>| trim(q)).filter(
        |q: Seq<char>| q.len() > 0,
    )) by {
        reveal(Seq::filter);
    }
    while i < n
        invariant
            n == s@.len(),
            cur <= i <= n,
            split_commas(s@.take(i as int)) == done.push(s@.subrange(cur as int, i as int)),
            range_strs(s@, ranges@) == done.map_values(|q: Seq<char>| trim(q)).filter(
                |q: Seq<char>| q.len() > 0,
            ),
            forall|k: int| 0 <= k < ranges@.len() ==> #[trigger] ranges@[k].0 <= ranges@[k].1 <= n,
        decreases n - i,
    {
        let c = s.get_char(i);
        proof {
            assert(s@.take(i + 1).drop_last() =~= s@.take(i as int));
            assert(s@.take(i + 1).last() == c);
        }
        if c == ',' {
            push_piece(s, &mut ranges, cur, i, Ghost(done));
            proof {
                done = done.push(s@.subrange(cur as int, i as int));
                assert(s@.subrange(i + 1, i + 1) =~= Seq::<char>::empty());
            }
            cur = i + 1;
        } else {
            proof {
                assert(s@.subrange(cur as int, i as int).push(c) =~= s@.subrange(cur as int, i + 1));
            }
        }
        i += 1;
    }
    assert(s@.take(n as int) =~= s@);
    push_piece(s, &mut ranges, cur, n, Ghost(done));
    ranges
}

/// The allowed-origins setting as stored: every comma-separated entry
/// trimmed, empty entries dropped, the app's origin
/// `http://tauri.localhost` appended unless already listed, and the entries
/// joined again by commas.
pub fn normalize_allowed_origins(allowed_origins: &str) -> (normalized: String)
    ensures
        normalized@ == spec_normalize_allowed_origins(allowed_origins@),
{
    let s = allowed_origins;
    let n = s.unicode_len();
    let ranges = entry_ranges(s);
    let ghost listed = range_strs(s@, ranges@);
    assert(listed == comma_entries(s@));
    // Is the required origin already listed?
    let required = "http://tauri.localhost";
    let mut found = false;
    let mut k: usize = 0;
    while k < ranges.len()
        invariant
            k <= ranges.len(),
            listed == range_strs(s@, ranges@),
            forall|j: int| 0 <= j < ranges@.len() ==> #[trigger] ranges@[j].0 <= ranges@[j].1 <= n,
            n == s@.len(),
            found == exists|j: int| 0 <= j < k && #[trigger] listed[j] == required@,
        decreases ranges.len() - k,
    {
        let (a, b) = ranges[k];
        if range_equals(s, a, b, required) {
            assert(listed[k as int] == required@);
            found = true;
        }
        k += 1;
    }
    assert(found == listed.contains(required@));
    // Join the entries.
    let sep = ",";
    proof {
        reveal_strlit(",");
    }
    let mut out = String::new();
    let mut k: usize = 0;
    assert(listed.take(0) =~= Seq::<Seq<char>>::empty());
    while k < ranges.len()
        invariant
            k <= ranges.len(),
            listed == range_strs(s@, ranges@),
            forall|j: int| 0 <= j < ranges@.len() ==> #[trigger] ranges@[j].0 <= ranges@[j].1 <= n,
            n == s@.len(),
            sep@ == ","@,
            out@ == join(listed.take(k as int), ","@),
        decreases ranges.len() - k,
    {
        let (a, b) = ranges[k];
        let piece = s.substring_char(a, b);
        proof {
            assert(listed.take(k + 1).drop_last() =~= listed.take(k as int));
            assert(listed.take(k + 1).last() == piece@);
        }
        if k > 0 {
            out.append(sep);
        }
        out.append(piece);
        k += 1;
    }
    assert(listed.take(ranges.len() as int) =~= listed);
    if !found {
        proof {
            assert(listed.push(required@).drop_last() =~= listed);
        }
        if ranges.len() > 0 {
            out.append(sep);
        }
        out.append(required);
    }
    out
}


/// `s` holds no comma.
pub open spec fn comma_free(s: Seq<char>) -> bool {
    forall|i: int| 0 <= i < s.len() ==> #[trigger] s[i] != ','
}

/// An entry as the normalised setting holds it: non-empty, without
/// surrounding white space and without commas.
pub open spec fn clean_entry(e: Seq<char>) -> bool {
    e.len() > 0 && trim(e) == e && comma_free(e)
}

proof fn lemma_trim_start_suffix(s: Seq<char>)
    ensures
        trim_start(s).len() <= s.len(),
        trim_start(s) == s.subrange(s.len() - trim_start(s).len(), s.len() as int),
        trim_start(s).len() > 0 ==> !spec_is_whitespace(trim_start(s)[0]),
    decreases s.len(),
{
    if s.len() > 0 && spec_is_whitespace(s[0]) {
        lemma_trim_start_suffix(s.drop_first());
        assert(trim_start(s) =~= s.subrange(s.len() - trim_start(s).len(), s.len() as int));
    } else {
        assert(s =~= s.subrange(0, s.len() as int));
    }
}

proof fn lemma_trim_end_prefix(s: Seq<char>)
    ensures
        trim_end(s).len() <= s.len(),
        trim_end(s) == s.subrange(0, trim_end(s).len() as int),
        trim_end(s).len() > 0 ==> !spec_is_whitespace(trim_end(s).last()),
        s.len() > 0 && !spec_is_whitespace(s[0]) ==> trim_end(s).len() > 0,
    decreases s.len(),
{
    if s.len() > 0 && spec_is_whitespace(s.last()) {
        lemma_trim_end_prefix(s.drop_last());
        assert(trim_end(s) =~= s.subrange(0, trim_end(s).len() as int));
        if s.len() > 0 && !spec_is_whitespace(s[0]) {
            assert(s.len() > 1);
            assert(s.drop_last()[0] == s[0]);
        }
    } else {
        assert(s =~= s.subrange(0, s.len() as int));
    }
}

/// Trimming a second time changes nothing, and a trimmed piece of a
/// comma-free string is comma-free.
proof fn lemma_trim_clean(p: Seq<char>)
    ensures
        trim(trim(p)) == trim(p),
        comma_free(p) ==> comma_free(trim(p)),
{
    let t = trim_start(p);
    let q = trim_end(t);
    lemma_trim_start_suffix(p);
    lemma_trim_end_prefix(t);
    if q.len() > 0 {
        assert(q[0] == t[0]);
        assert(trim_start(q) == q);
        lemma_trim_start_suffix(q);
        assert(trim_end(q) == q);
    } else {
        assert(trim_start(q) == q);
        assert(trim_end(q) == q);
    }
    if comma_free(p) {
        assert forall|i: int| 0 <= i < q.len() implies #[trigger] q[i] != ',' by {
            assert(q[i] == t[i]);
            assert(t[i] == p[p.len() - t.len() + i]);
        }
    }
}

proof fn lemma_split_nonempty_pieces(s: Seq<char>)
    ensures
        split_commas(s).len() >= 1,
        forall|i: int| 0 <= i < split_commas(s).len() ==> comma_free(#[trigger] split_commas(s)[i]),
    decreases s.len(),
{
    if s.len() > 0 {
        lemma_split_nonempty_pieces(s.drop_last());
        let pieces = split_commas(s.drop_last());
        if s.last() != ',' {
            let last = pieces.last().push(s.last());
            assert forall|i: int| 0 <= i < last.len() implies #[trigger] last[i] != ',' by {
                if i < last.len() - 1 {
                    assert(last[i] == pieces.last()[i]);
                }
            }
        }
    }
}

proof fn lemma_split_append_plain(z: Seq<char>, y: Seq<char>)
    requires
        comma_free(y),
    ensures
        split_commas(z + y) == split_commas(z).update(
            split_commas(z).len() - 1,
            split_commas(z).last() + y,
        ),
    decreases y.len(),
{
    lemma_split_nonempty_pieces(z);
    let sz = split_commas(z);
    if y.len() == 0 {
        assert(z + y =~= z);
        assert(sz.last() + y =~= sz.last());
        assert(sz.update(sz.len() - 1, sz.last() + y) =~= sz);
    } else {
        let y0 = y.drop_last();
        assert(comma_free(y0)) by {
            assert forall|i: int| 0 <= i < y0.len() implies #[trigger] y0[i] != ',' by {
                assert(y0[i] == y[i]);
            }
        }
        lemma_split_append_plain(z, y0);
        assert((z + y).drop_last() =~= z + y0);
        assert((z + y).last() == y.last());
        assert(y.last() != ',');
        let p = split_commas(z + y0);
        assert(p.last() == sz.last() + y0);
        assert(p.last().push(y.last()) =~= sz.last() + y);
        assert(split_commas(z + y) =~= sz.update(sz.len() - 1, sz.last() + y));
    }
}

proof fn lemma_split_join(list: Seq<Seq<char>>)
    requires
        list.len() >= 1,
        forall|i: int| 0 <= i < list.len() ==> comma_free(#[trigger] list[i]),
    ensures
        split_commas(join(list, ","@)) == list,
    decreases list.len(),
{
    reveal_strlit(",");
    if list.len() == 1 {
        lemma_split_append_plain(Seq::empty(), list[0]);
        assert(Seq::<char>::empty() + list[0] =~= list[0]);
        assert(split_commas(Seq::<char>::empty()) =~= seq![Seq::<char>::empty()]);
        assert(split_commas(join(list, ","@)) =~= list);
    } else {
        let init = list.drop_last();
        assert forall|i: int| 0 <= i < init.len() implies comma_free(#[trigger] init[i]) by {
            assert(init[i] == list[i]);
        }
        lemma_split_join(init);
        let z = join(init, ","@) + ","@;
        assert(z.drop_last() =~= join(init, ","@));
        assert(z.last() == ',');
        assert(split_commas(z) == init.push(Seq::empty()));
        lemma_split_append_plain(z, list.last());
        assert(join(list, ","@) =~= z + list.last());
        assert(Seq::<char>::empty() + list.last() =~= list.last());
        assert(split_commas(join(list, ","@)) =~= list);
    }
}

proof fn lemma_listed_of_clean(list: Seq<Seq<char>>)
    requires
        forall|i: int| 0 <= i < list.len() ==> clean_entry(#[trigger] list[i]),
    ensures
        list.map_values(|p: Seq<char>| trim(p)).filter(|p: Seq<char>| p.len() > 0) == list,
    decreases list.len(),
{
    reveal(Seq::filter);
    let m = list.map_values(|p: Seq<char>| trim(p));
    assert(m =~= list);
    if list.len() > 0 {
        let init = list.drop_last();
        assert forall|i: int| 0 <= i < init.len() implies clean_entry(#[trigger] init[i]) by {
            assert(init[i] == list[i]);
        }
        lemma_listed_of_clean(init);
        assert(init.map_values(|p: Seq<char>| trim(p)) =~= init);
        assert(m.drop_last() =~= init);
        assert(list.last().len() > 0);
    }
}

proof fn lemma_comma_entries_clean(s: Seq<char>)
    ensures
        forall|i: int|
            0 <= i < comma_entries(s).len() ==> clean_entry(#[trigger] comma_entries(s)[i]),
{
    let pieces = split_commas(s);
    let m = pieces.map_values(|p: Seq<char>| trim(p));
    let pred = |p: Seq<char>| p.len() > 0;
    let l = m.filter(pred);
    lemma_split_nonempty_pieces(s);
    assert forall|i: int| 0 <= i < l.len() implies clean_entry(#[trigger] l[i]) by {
        m.lemma_filter_pred(pred, i);
        assert(l.contains(l[i]));
        m.lemma_filter_contains_rev(pred, l[i]);
        let j = choose|j: int| 0 <= j < m.len() && m[j] == l[i];
        lemma_trim_clean(pieces[j]);
    }
}

proof fn lemma_required_clean()
    ensures
        clean_entry(required_origin()),
{
    reveal_strlit("http://tauri.localhost");
    let r = required_origin();
    assert(!spec_is_whitespace(r[0]));
    assert(!spec_is_whitespace(r.last()));
    assert(trim_start(r) == r);
    lemma_trim_start_suffix(r);
    assert(trim_end(r) == r);
    assert(comma_free(r));
}

/// Every entry of the normalised setting is non-empty, trimmed and free of
/// commas, and the app's origin is among them.
pub proof fn lemma_normalized_entries(s: Seq<char>)
    ensures
        forall|i: int|
            0 <= i < with_required(comma_entries(s)).len() ==> clean_entry(
                #[trigger] with_required(comma_entries(s))[i],
            ),
        with_required(comma_entries(s)).contains(required_origin()),
{
    lemma_comma_entries_clean(s);
    lemma_required_clean();
    let l = comma_entries(s);
    let w = with_required(l);
    if !l.contains(required_origin()) {
        assert(w[w.len() - 1] == required_origin());
        assert forall|i: int| 0 <= i < w.len() implies clean_entry(#[trigger] w[i]) by {
            if i < l.len() {
                assert(w[i] == l[i]);
            }
        }
    }
}

/// Normalising an already normalised setting changes nothing.
pub proof fn lemma_normalize_idempotent(s: Seq<char>)
    ensures
        spec_normalize_allowed_origins(spec_normalize_allowed_origins(s))
            == spec_normalize_allowed_origins(s),
{
    let w = with_required(comma_entries(s));
    lemma_normalized_entries(s);
    assert(w.len() >= 1);
    lemma_split_join(w);
    lemma_listed_of_clean(w);
    assert(comma_entries(join(w, ","@)) == w);
}


/// The entries of a comma-separated list: each piece between commas
/// trimmed, empty pieces dropped, in order.
pub fn comma_list(s: &str) -> (entries: Vec<String>)
    ensures
        entries@.map_values(|e: String| e@) == comma_entries(s@),
{
    let ranges = entry_ranges(s);
    let ghost listed = range_strs(s@, ranges@);
    let mut entries: Vec<String> = Vec::new();
    let mut k: usize = 0;
    while k < ranges.len()
        invariant
            k <= ranges.len(),
            listed == range_strs(s@, ranges@),
            forall|j: int| 0 <= j < ranges@.len() ==> #[trigger] ranges@[j].0 <= ranges@[j].1 <= s@.len(),
            entries@.map_values(|e: String| e@) == listed.take(k as int),
        decreases ranges.len() - k,
    {
        let (a, b) = ranges[k];
        let piece = String::from_str(s.substring_char(a, b));
        let ghost prev = entries@;
        entries.push(piece);
        proof {
            assert(entries@.map_values(|e: String| e@) =~= prev.map_values(|e: String| e@).push(
                piece@,
            ));
            assert(listed.take(k + 1) =~= listed.take(k as int).push(listed[k as int]));
        }
        k += 1;
    }
    assert(listed.take(ranges.len() as int) =~= listed);
    entries
}

/// The pieces of `s` between commas, untrimmed and empty ones included, as
/// `str::split(',')` yields them.
pub fn comma_pieces(s: &str) -> (pieces: Vec<String>)
    ensures
        pieces@.map_values(|p: String| p@) == split_commas(s@),
{
    let n = s.unicode_len();
    let mut pieces: Vec<String> = Vec::new();
    let mut start: usize = 0;
    let mut i: usize = 0;
    assert(s@.take(0) =~= Seq::<char>::empty());
    assert(pieces@.map_values(|p: String| p@) =~= Seq::<Seq<char>>::empty());
    assert(s@.subrange(0, 0) =~= Seq::<char>::empty());
    while i < n
        invariant
            n == s@.len(),
            start <= i <= n,
            split_commas(s@.take(i as int)) == pieces@.map_values(|p: String| p@).push(
                s@.subrange(start as int, i as int),
            ),
        decreases n - i,
    {
        let c = s.get_char(i);
        let ghost prev = pieces@.map_values(|p: String| p@);
        let ghost cur = s@.subrange(start as int, i as int);
        assert(s@.take(i + 1).drop_last() =~= s@.take(i as int));
        assert(s@.take(i + 1).last() == c);
        if c == ',' {
            let piece = String::from_str(s.substring_char(start, i));
            pieces.push(piece);
            start = i + 1;
            assert(pieces@.map_values(|p: String| p@) =~= prev.push(cur));
            assert(s@.subrange(start as int, i + 1) =~= Seq::<char>::empty());
        } else {
            assert(s@.subrange(start as int, i + 1) =~= cur.push(c));
            assert(prev.push(cur).update(prev.len() as int, cur.push(c)) =~= prev.push(cur.push(c)));
        }
        i += 1;
    }
    let last = String::from_str(s.substring_char(start, n));
    let ghost prev = pieces@.map_values(|p: String| p@);
    pieces.push(last);
    assert(pieces@.map_values(|p: String| p@) =~= prev.push(s@.subrange(start as int, n as int)));
    assert(s@.take(n as int) =~= s@);
    pieces
}

} // verus!
