use vstd::prelude::*;
use vstd::string::StringExecFns;
use vstd::string::StringSliceAdditionalSpecFns;
use crate::text::is_ws;
use crate::text::is_ws_byte;

verus! {

// ---------------------------------------------------------------------------
// What one line of the credential file means.
// ---------------------------------------------------------------------------

/// `s` with its leading whitespace dropped.
pub open spec fn trim_start(s: Seq<u8>) -> Seq<u8>
    decreases s.len(),
{
    if s.len() > 0 && is_ws(s[0]) {
        trim_start(s.drop_first())
    } else {
        s
    }
}

/// `s` with its trailing whitespace dropped.
pub open spec fn trim_end(s: Seq<u8>) -> Seq<u8>
    decreases s.len(),
{
    if s.len() > 0 && is_ws(s.last()) {
        trim_end(s.drop_last())
    } else {
        s
    }
}

/// `s` with surrounding whitespace dropped.
pub open spec fn trimmed(s: Seq<u8>) -> Seq<u8> {
    trim_end(trim_start(s))
}

/// A double or single quote.
pub open spec fn is_quote(b: u8) -> bool {
    b == 0x22 || b == 0x27
}

/// One surrounding layer of matching quotes removed.
pub open spec fn unquoted(s: Seq<u8>) -> Seq<u8> {
    if s.len() >= 2 && is_quote(s[0]) && s.last() == s[0] {
        s.subrange(1, s.len() - 1)
    } else {
        s
    }
}

/// The first `=` at or after `from`, or the end of the input.
pub open spec fn eq_pos(s: Seq<u8>, from: int) -> int
    decreases s.len() - from,
{
    if from < 0 || from >= s.len() {
        s.len() as int
    } else if s[from] == 0x3d {
        from
    } else {
        eq_pos(s, from + 1)
    }
}

/// The cleaned value a line defines for `key`: the line, trimmed, must not
/// be blank or a comment, and must split on its first `=` into `key`
/// (trimmed) and a value that, trimmed and unquoted, is non-empty.
pub open spec fn line_value(line: Seq<u8>, key: Seq<u8>) -> Option<Seq<u8>> {
    let t = trimmed(line);
    if t.len() == 0 || t[0] == 0x23 {
        None
    } else {
        let e = eq_pos(t, 0);
        if e == t.len() {
            None
        } else {
            let k = trimmed(t.subrange(0, e));
            let v = unquoted(trimmed(t.subrange(e + 1, t.len() as int)));
            if k == key && v.len() > 0 {
                Some(v)
            } else {
                None
            }
        }
    }
}

// ---------------------------------------------------------------------------
// What the whole file means.
// ---------------------------------------------------------------------------

/// The first newline at or after `from`, or the end of the input.
pub open spec fn line_end(s: Seq<u8>, from: int) -> int
    decreases s.len() - from,
{
    if from < 0 || from >= s.len() {
        s.len() as int
    } else if s[from] == 0x0a {
        from
    } else {
        line_end(s, from + 1)
    }
}

/// Scans the lines of `s` from position `from` with `acc` already defined
/// for `key`: a later line's definition overrides an earlier one.
pub open spec fn scan_from(s: Seq<u8>, from: int, key: Seq<u8>, acc: Option<Seq<u8>>) -> Option<
    Seq<u8>,
>
    decreases s.len() - from,
{
    if from < 0 || from >= s.len() {
        acc
    } else {
        let e0 = line_end(s, from);
        let e = if e0 < from {
            from
        } else {
            e0
        };
        let acc2 = match line_value(s.subrange(from, e), key) {
            Some(v) => Some(v),
            None => acc,
        };
        if e >= s.len() {
            acc2
        } else {
            scan_from(s, e + 1, key, acc2)
        }
    }
}

/// The value the file defines for `key`, if any.
pub open spec fn cred_of(s: Seq<u8>, key: Seq<u8>) -> Option<Seq<u8>> {
    scan_from(s, 0, key, None)
}

/// The prefixed key under which the file declares the OAuth client id.
pub open spec fn client_id_key() -> Seq<u8> {
    "VITE_GOOGLE_OAUTH_CLIENT_ID".spec_bytes()
}

/// The prefixed key under which the file declares the OAuth client secret.
pub open spec fn client_secret_key() -> Seq<u8> {
    "VITE_GOOGLE_OAUTH_CLIENT_SECRET".spec_bytes()
}

/// The byte sequence an optional buffer holds.
pub open spec fn opt_bytes(o: Option<Vec<u8>>) -> Option<Seq<u8>> {
    match o {
        Some(v) => Some(v@),
        None => None,
    }
}

// ---------------------------------------------------------------------------
// Lemmas tying index scans to the recursive definitions.
// ---------------------------------------------------------------------------

proof fn lemma_line_end_is(s: Seq<u8>, from: int, e: int)
    requires
        0 <= from <= e <= s.len(),
        forall|j: int| from <= j < e ==> s[j] != 0x0a,
        e == s.len() || s[e] == 0x0a,
    ensures
        line_end(s, from) == e,
    decreases e - from,
{
    if from < e {
        lemma_line_end_is(s, from + 1, e);
    }
}

proof fn lemma_eq_pos_is(s: Seq<u8>, from: int, e: int)
    requires
        0 <= from <= e <= s.len(),
        forall|j: int| from <= j < e ==> s[j] != 0x3d,
        e == s.len() || s[e] == 0x3d,
    ensures
        eq_pos(s, from) == e,
    decreases e - from,
{
    if from < e {
        lemma_eq_pos_is(s, from + 1, e);
    }
}

proof fn lemma_trim_start_is(s: Seq<u8>, k: int)
    requires
        0 <= k <= s.len(),
        forall|j: int| 0 <= j < k ==> is_ws(#[trigger] s[j]),
        k == s.len() || !is_ws(s[k]),
    ensures
        trim_start(s) == s.subrange(k, s.len() as int),
    decreases k,
{
    if k == 0 {
        assert(s.subrange(0, s.len() as int) =~= s);
    } else {
        assert(is_ws(s[0]));
        let d = s.drop_first();
        assert forall|j: int| 0 <= j < k - 1 implies is_ws(#[trigger] d[j]) by {
            assert(d[j] == s[j + 1]);
        }
        if k - 1 < d.len() {
            assert(d[k - 1] == s[k]);
        }
        lemma_trim_start_is(d, k - 1);
        assert(d.subrange(k - 1, d.len() as int) =~= s.subrange(k, s.len() as int));
    }
}

proof fn lemma_trim_end_is(s: Seq<u8>, k: int)
    requires
        0 <= k <= s.len(),
        forall|j: int| k <= j < s.len() ==> is_ws(#[trigger] s[j]),
        k == 0 || !is_ws(s[k - 1]),
    ensures
        trim_end(s) == s.subrange(0, k),
    decreases s.len() - k,
{
    if k == s.len() {
        assert(s.subrange(0, s.len() as int) =~= s);
        if s.len() > 0 {
            assert(!is_ws(s.last()));
        }
    } else {
        assert(is_ws(s.last()));
        let d = s.drop_last();
        assert forall|j: int| k <= j < d.len() implies is_ws(#[trigger] d[j]) by {
            assert(d[j] == s[j]);
        }
        lemma_trim_end_is(d, k);
        assert(d.subrange(0, k) =~= s.subrange(0, k));
    }
}

// ---------------------------------------------------------------------------
// Executable scanning.
// ---------------------------------------------------------------------------

/// The bytes of `s` between `start` and `end`.
fn copy_range(s: &[u8], start: usize, end: usize) -> (r: Vec<u8>)
    requires
        start <= end <= s@.len(),
    ensures
        r@ == s@.subrange(start as int, end as int),
{
    let mut out: Vec<u8> = Vec::new();
    let mut j: usize = start;
    assert(out@ =~= s@.subrange(start as int, start as int));
    while j < end
        invariant
            start <= j <= end <= s@.len(),
            out@ == s@.subrange(start as int, j as int),
        decreases end - j,
    {
        out.push(s[j]);
        assert(s@.subrange(start as int, j + 1) =~= s@.subrange(start as int, j as int).push(
            s@[j as int],
        ));
        j = j + 1;
    }
    out
}

/// Trim bounds of the segment `[start, end)` of `s`: the trimmed segment is
/// exactly `[r.0, r.1)`.
fn trim_bounds(s: &[u8], start: usize, end: usize) -> (r: (usize, usize))
    requires
        start <= end <= s@.len(),
    ensures
        start <= r.0 <= r.1 <= end,
        trimmed(s@.subrange(start as int, end as int)) == s@.subrange(r.0 as int, r.1 as int),
{
    let ghost seg = s@.subrange(start as int, end as int);
    let mut lo: usize = start;
    while lo < end && is_ws_byte(s[lo])
        invariant
            start <= lo <= end <= s@.len(),
            forall|j: int| start <= j < lo ==> is_ws(#[trigger] s@[j]),
        decreases end - lo,
    {
        lo = lo + 1;
    }
    let mut hi: usize = end;
    while hi > lo && is_ws_byte(s[hi - 1])
        invariant
            lo <= hi <= end <= s@.len(),
            forall|j: int| hi <= j < end ==> is_ws(#[trigger] s@[j]),
        decreases hi,
    {
        hi = hi - 1;
    }
    proof {
        assert forall|j: int| 0 <= j < lo - start implies is_ws(#[trigger] seg[j]) by {
            assert(seg[j] == s@[start + j]);
        }
        if lo < end {
            assert(seg[lo - start] == s@[lo as int]);
        }
        lemma_trim_start_is(seg, lo - start);
        let t1 = trim_start(seg);
        assert(t1 =~= s@.subrange(lo as int, end as int));
        assert forall|j: int| hi - lo <= j < t1.len() implies is_ws(#[trigger] t1[j]) by {
            assert(t1[j] == s@[lo + j]);
        }
        if hi > lo {
            assert(t1[hi - lo - 1] == s@[hi - 1]);
        }
        lemma_trim_end_is(t1, hi - lo);
        assert(t1.subrange(0, hi - lo) =~= s@.subrange(lo as int, hi as int));
    }
    (lo, hi)
}

/// Whether the segment `[lo, hi)` of `s` is exactly `key`.
fn seg_eq(s: &[u8], lo: usize, hi: usize, key: &[u8]) -> (r: bool)
    requires
        lo <= hi <= s@.len(),
    ensures
        r == (s@.subrange(lo as int, hi as int) == key@),
{
    let ghost seg = s@.subrange(lo as int, hi as int);
    if hi - lo != key.len() {
        assert(seg.len() != key@.len());
        return false;
    }
    let mut j: usize = 0;
    while j < key.len()
        invariant
            lo <= hi <= s@.len(),
            hi - lo == key@.len(),
            j <= key@.len(),
            seg == s@.subrange(lo as int, hi as int),
            forall|i: int| 0 <= i < j ==> seg[i] == key@[i],
        decreases key@.len() - j,
    {
        if s[lo + j] != key[j] {
            assert(seg[j as int] == s@[lo + j]);
            assert(seg[j as int] != key@[j as int]);
            return false;
        }
        assert(seg[j as int] == s@[lo + j]);
        j = j + 1;
    }
    assert(seg =~= key@);
    true
}

/// The cleaned value `line` defines for `key`, if any.
fn line_value_exec(line: &[u8], key: &[u8]) -> (r: Option<Vec<u8>>)
    ensures
        match r {
            Some(v) => line_value(line@, key@) == Some(v@),
            None => line_value(line@, key@) is None,
        },
{
    let ghost t = trimmed(line@);
    let n = line.len();
    assert(line@.subrange(0, n as int) =~= line@);
    let (lo, hi) = trim_bounds(line, 0, n);
    if lo == hi {
        return None;
    }
    assert(t[0] == line@[lo as int]);
    if line[lo] == 0x23 {
        return None;
    }
    // first '=' inside the trimmed segment
    let mut e: usize = lo;
    while e < hi && line[e] != 0x3d
        invariant
            lo <= e <= hi <= line@.len(),
            forall|j: int| lo <= j < e ==> line@[j] != 0x3d,
        decreases hi - e,
    {
        e = e + 1;
    }
    proof {
        assert forall|j: int| 0 <= j < e - lo implies t[j] != 0x3d by {
            assert(t[j] == line@[lo + j]);
        }
        if e < hi {
            assert(t[e - lo] == line@[e as int]);
        }
        lemma_eq_pos_is(t, 0, e - lo);
    }
    if e == hi {
        return None;
    }
    // the key part, trimmed
    let (klo, khi) = trim_bounds(line, lo, e);
    proof {
        assert(t.subrange(0, e - lo) =~= line@.subrange(lo as int, e as int));
    }
    let key_matches = seg_eq(line, klo, khi, key);
    // the value part, trimmed and unquoted
    let (vlo, vhi) = trim_bounds(line, e + 1, hi);
    proof {
        assert(t.subrange(e - lo + 1, t.len() as int) =~= line@.subrange(e + 1, hi as int));
    }
    let ghost tv = trimmed(t.subrange(e - lo + 1, t.len() as int));
    assert(tv == line@.subrange(vlo as int, vhi as int));
    let bounds: (usize, usize) = if vhi - vlo >= 2 && (line[vlo] == 0x22 || line[vlo] == 0x27)
        && line[vhi - 1] == line[vlo] {
        proof {
            assert(tv[0] == line@[vlo as int]);
            assert(tv.last() == line@[vhi - 1]);
            assert(unquoted(tv) =~= line@.subrange(vlo + 1, vhi - 1));
        }
        (vlo + 1, vhi - 1)
    } else {
        proof {
            if tv.len() >= 2 {
                assert(tv[0] == line@[vlo as int]);
                assert(tv.last() == line@[vhi - 1]);
            }
            assert(unquoted(tv) =~= line@.subrange(vlo as int, vhi as int));
        }
        (vlo, vhi)
    };
    let uqlo = bounds.0;
    let uqhi = bounds.1;
    assert(unquoted(tv) == line@.subrange(uqlo as int, uqhi as int));
    if key_matches && uqhi > uqlo {
        let v = copy_range(line, uqlo, uqhi);
        Some(v)
    } else {
        None
    }
}

// ---------------------------------------------------------------------------
// The credential source's result.
// ---------------------------------------------------------------------------

/// The secrets a credential file yields: only keys actually found with
/// non-empty values are present.
pub struct OAuthCredentials {
    pub client_id: Option<Vec<u8>>,
    pub client_secret: Option<Vec<u8>>,
}

impl OAuthCredentials {
    /// The client id as a byte sequence, if found.
    pub open spec fn id_view(self) -> Option<Seq<u8>> {
        match self.client_id {
            Some(v) => Some(v@),
            None => None,
        }
    }

    /// The client secret as a byte sequence, if found.
    pub open spec fn secret_view(self) -> Option<Seq<u8>> {
        match self.client_secret {
            Some(v) => Some(v@),
            None => None,
        }
    }
}

/// An equal copy of the bytes.
fn clone_bytes(v: &Vec<u8>) -> (r: Vec<u8>)
    ensures
        r@ == v@,
{
    let r = copy_range(v.as_slice(), 0, v.len());
    proof {
        assert(v@.subrange(0, v@.len() as int) =~= v@);
    }
    r
}

/// The recognized keys re-emitted under their unprefixed forms: only keys
/// found with non-empty values appear, the client id first.
pub fn unprefixed_env(creds: &OAuthCredentials) -> (r: Vec<(String, Vec<u8>)>)
    ensures
        match (creds.id_view(), creds.secret_view()) {
            (Some(i), Some(s)) => r@.len() == 2 && r@[0].0@ == "GOOGLE_OAUTH_CLIENT_ID"@
                && r@[0].1@ == i && r@[1].0@ == "GOOGLE_OAUTH_CLIENT_SECRET"@ && r@[1].1@ == s,
            (Some(i), None) => r@.len() == 1 && r@[0].0@ == "GOOGLE_OAUTH_CLIENT_ID"@ && r@[0].1@
                == i,
            (None, Some(s)) => r@.len() == 1 && r@[0].0@ == "GOOGLE_OAUTH_CLIENT_SECRET"@
                && r@[0].1@ == s,
            (None, None) => r@.len() == 0,
        },
{
    let mut out: Vec<(String, Vec<u8>)> = Vec::new();
    match &creds.client_id {
        Some(v) => {
            out.push((String::from_str("GOOGLE_OAUTH_CLIENT_ID"), clone_bytes(v)));
        },
        None => {},
    }
    match &creds.client_secret {
        Some(v) => {
            out.push((String::from_str("GOOGLE_OAUTH_CLIENT_SECRET"), clone_bytes(v)));
        },
        None => {},
    }
    out
}

/// The entries whose value is non-empty, in order.
pub open spec fn non_empty_entries(s: Seq<(String, String)>) -> Seq<(String, String)>
    decreases s.len(),
{
    if s.len() == 0 {
        Seq::empty()
    } else if s[0].1@.len() > 0 {
        seq![s[0]] + non_empty_entries(s.drop_first())
    } else {
        non_empty_entries(s.drop_first())
    }
}

proof fn lemma_non_empty_push(s: Seq<(String, String)>, p: (String, String))
    ensures
        non_empty_entries(s.push(p)) == (if p.1@.len() > 0 {
            non_empty_entries(s).push(p)
        } else {
            non_empty_entries(s)
        }),
    decreases s.len(),
{
    if s.len() == 0 {
        assert(s.push(p).drop_first() =~= Seq::<(String, String)>::empty());
        assert(s.push(p)[0] == p);
        assert(non_empty_entries(Seq::<(String, String)>::empty()) =~= Seq::<
            (String, String),
        >::empty());
        assert(non_empty_entries(s) =~= Seq::<(String, String)>::empty());
        if p.1@.len() > 0 {
            assert(non_empty_entries(s.push(p)) =~= non_empty_entries(s).push(p));
        } else {
            assert(non_empty_entries(s.push(p)) =~= non_empty_entries(s));
        }
    } else {
        assert(s.push(p).drop_first() =~= s.drop_first().push(p));
        assert(s.push(p)[0] == s[0]);
        lemma_non_empty_push(s.drop_first(), p);
        if p.1@.len() > 0 {
            assert(non_empty_entries(s.push(p)) =~= non_empty_entries(s).push(p));
        } else {
            assert(non_empty_entries(s.push(p)) =~= non_empty_entries(s));
        }
    }
}

fn push_non_empty(out: &mut Vec<(String, String)>, src: &Vec<(String, String)>)
    ensures
        final(out)@ == old(out)@ + non_empty_entries(src@),
{
    let mut i: usize = 0;
    assert(out@ =~= old(out)@ + non_empty_entries(src@.subrange(0, 0)));
    while i < src.len()
        invariant
            i <= src@.len(),
            out@ == old(out)@ + non_empty_entries(src@.subrange(0, i as int)),
        decreases src@.len() - i,
    {
        proof {
            assert(src@.subrange(0, i + 1) =~= src@.subrange(0, i as int).push(src@[i as int]));
            lemma_non_empty_push(src@.subrange(0, i as int), src@[i as int]);
        }
        if !src[i].1.as_str().is_empty() {
            let p = (src[i].0.clone(), src[i].1.clone());
            assert(p == src@[i as int]);
            out.push(p);
        }
        i = i + 1;
    }
    assert(src@.subrange(0, src@.len() as int) =~= src@);
}

/// The union of extra environments handed to a spawned process: entries with
/// empty values are skipped from both sources, and `extra` follows `base` so
/// that, applied in order, a later source overrides an earlier one.
pub fn merge_env(base: &Vec<(String, String)>, extra: &Vec<(String, String)>) -> (r: Vec<
    (String, String),
>)
    ensures
        r@ == non_empty_entries(base@) + non_empty_entries(extra@),
{
    let mut out: Vec<(String, String)> = Vec::new();
    push_non_empty(&mut out, base);
    push_non_empty(&mut out, extra);
    proof {
        assert(out@ =~= non_empty_entries(base@) + non_empty_entries(extra@));
    }
    out
}

/// Parses a credential file: lines are scanned in order; blank lines and
/// `#` comments are skipped; a `KEY=VALUE` line, with whitespace and one
/// layer of surrounding quotes removed from the value, defines `KEY` when
/// the value is non-empty; the last definition of each recognized key wins.
pub fn parse_oauth_credentials(contents: &[u8]) -> (r: OAuthCredentials)
    ensures
        r.id_view() == cred_of(contents@, client_id_key()),
        r.secret_view() == cred_of(contents@, client_secret_key()),
{
    let id_key: &str = "VITE_GOOGLE_OAUTH_CLIENT_ID";
    let secret_key: &str = "VITE_GOOGLE_OAUTH_CLIENT_SECRET";
    let mut id: Option<Vec<u8>> = None;
    let mut secret: Option<Vec<u8>> = None;
    let mut start: usize = 0;
    while start < contents.len()
        invariant
            start <= contents@.len(),
            id_key.spec_bytes() == client_id_key(),
            secret_key.spec_bytes() == client_secret_key(),
            scan_from(
                contents@,
                start as int,
                client_id_key(),
                opt_bytes(id),
            ) == cred_of(contents@, client_id_key()),
            scan_from(
                contents@,
                start as int,
                client_secret_key(),
                opt_bytes(secret),
            ) == cred_of(contents@, client_secret_key()),
        decreases contents@.len() - start,
    {
        let ghost pre_id = opt_bytes(id);
        let ghost pre_secret = opt_bytes(secret);
        let mut e: usize = start;
        while e < contents.len() && contents[e] != 0x0a
            invariant
                start <= e <= contents@.len(),
                forall|j: int| start <= j < e ==> contents@[j] != 0x0a,
            decreases contents@.len() - e,
        {
            e = e + 1;
        }
        proof {
            lemma_line_end_is(contents@, start as int, e as int);
        }
        let line = copy_range(contents, start, e);
        match line_value_exec(line.as_slice(), id_key.as_bytes()) {
            Some(v) => {
                id = Some(v);
            },
            None => {},
        }
        match line_value_exec(line.as_slice(), secret_key.as_bytes()) {
            Some(v) => {
                secret = Some(v);
            },
            None => {},
        }
        proof {
            let s = contents@;
            let cur_id = opt_bytes(id);
            let cur_secret = opt_bytes(secret);
            assert(cur_id == (match line_value(line@, client_id_key()) {
                Some(v) => Some(v),
                None => pre_id,
            }));
            assert(cur_secret == (match line_value(line@, client_secret_key()) {
                Some(v) => Some(v),
                None => pre_secret,
            }));
            assert(scan_from(s, start as int, client_id_key(), pre_id) == (if e >= s.len() {
                cur_id
            } else {
                scan_from(s, e + 1, client_id_key(), cur_id)
            }));
            assert(scan_from(s, start as int, client_secret_key(), pre_secret) == (if e >= s.len() {
                cur_secret
            } else {
                scan_from(s, e + 1, client_secret_key(), cur_secret)
            }));
        }
        if e == contents.len() {
            start = contents.len();
        } else {
            start = e + 1;
        }
    }
    OAuthCredentials { client_id: id, client_secret: secret }
}

} // verus!
