//! The `List-Unsubscribe` header (RFC 2369) and the Gmail message headers it
//! is read from.
use vstd::prelude::*;
use crate::text::{
    chars_equal, chars_of, contains_chars, contains_seq, find_char, has_prefix, split_on, trim,
    trim_bounds,
};
use crate::text::{lemma_split_on_join, lemma_split_on_without_sep};
use crate::text::{lemma_index_of_first_at, spec_is_whitespace, trim_end, trim_start};

verus! {

/// The scheme that an HTTPS unsubscribe link starts with.
pub open spec fn https_scheme() -> Seq<char> {
    "https://"@
}

/// The scheme that a mail unsubscribe link starts with.
pub open spec fn mailto_scheme() -> Seq<char> {
    "mailto:"@
}

/// The HTTPS link and the mail address found so far.
pub type LinkPair = (Option<Seq<char>>, Option<Seq<char>>);

/// The URI of one comma-separated entry of the header: what stands between
/// its first `<` and its first `>`, trimmed; `None` when the entry has no
/// such pair.
pub open spec fn entry_uri(part: Seq<char>) -> Option<Seq<char>> {
    let t = trim(part);
    match (t.index_of_first('<'), t.index_of_first('>')) {
        (Some(a), Some(b)) => if a < b {
            Some(trim(t.subrange(a + 1, b)))
        } else {
            None
        },
        _ => None,
    }
}

/// An entry whose first `>` stands before its first `<` cannot be cut into a
/// URI; every other entry can.
pub open spec fn entry_parsable(part: Seq<char>) -> bool {
    let t = trim(part);
    match (t.index_of_first('<'), t.index_of_first('>')) {
        (Some(a), Some(b)) => a < b,
        _ => true,
    }
}

/// One entry taken into account: the first HTTPS URI and the first `mailto:`
/// URI (without its scheme) are kept.
pub open spec fn absorb_entry(acc: LinkPair, part: Seq<char>) -> LinkPair {
    match entry_uri(part) {
        Some(uri) => if https_scheme().is_prefix_of(uri) && acc.0 is None {
            (Some(uri), acc.1)
        } else if mailto_scheme().is_prefix_of(uri) && acc.1 is None {
            (acc.0, Some(uri.skip(mailto_scheme().len() as int)))
        } else {
            acc
        },
        None => acc,
    }
}

/// `absorb_entry` as a function value, for folds.
pub open spec fn absorb_entry_fn() -> spec_fn(LinkPair, Seq<char>) -> LinkPair {
    |acc: LinkPair, part: Seq<char>| absorb_entry(acc, part)
}

/// The HTTPS link and the mail address that a `List-Unsubscribe` value names.
pub open spec fn spec_parse_list_unsubscribe(header: Seq<char>) -> LinkPair {
    split_on(header, ',').fold_left((None, None), absorb_entry_fn())
}

/// Every comma-separated entry of `header` can be cut into a URI.
pub open spec fn parsable_header(header: Seq<char>) -> bool {
    forall|i: int|
        0 <= i < split_on(header, ',').len() ==> #[trigger] entry_parsable(
            split_on(header, ',')[i],
        )
}

/// The view of an optional string.
pub open spec fn opt_view(o: Option<String>) -> Option<Seq<char>> {
    match o {
        Some(s) => Some(s@),
        None => None,
    }
}

/// An HTTPS link kept by the fold starts with `https://`.
pub proof fn lemma_kept_link_is_https(parts: Seq<Seq<char>>)
    ensures
        parts.fold_left((None, None), absorb_entry_fn()).0 matches Some(u)
            ==> https_scheme().is_prefix_of(u),
    decreases parts.len(),
{
    if parts.len() > 0 {
        lemma_kept_link_is_https(parts.drop_last());
    }
}

/// An entry that names neither an HTTPS URI nor a `mailto:` URI.
pub open spec fn names_no_link(part: Seq<char>) -> bool {
    match entry_uri(part) {
        Some(u) => !https_scheme().is_prefix_of(u) && !mailto_scheme().is_prefix_of(u),
        None => true,
    }
}

/// Once the fold has a link or an address, later entries keep it.
proof fn lemma_fold_keeps_found(parts: Seq<Seq<char>>, acc: LinkPair)
    ensures
        acc.0 is Some ==> parts.fold_left(acc, absorb_entry_fn()).0 == acc.0,
        acc.1 is Some ==> parts.fold_left(acc, absorb_entry_fn()).1 == acc.1,
    decreases parts.len(),
{
    if parts.len() > 0 {
        lemma_fold_keeps_found(parts.drop_last(), acc);
    }
}

/// The fold over the entries of `a`, then over those of `b`.
proof fn lemma_fold_join(a: Seq<Seq<char>>, b: Seq<Seq<char>>, acc: LinkPair)
    ensures
        (a + b).fold_left(acc, absorb_entry_fn()) == b.fold_left(
            a.fold_left(acc, absorb_entry_fn()),
            absorb_entry_fn(),
        ),
{
    (a + b).lemma_fold_left_split(acc, absorb_entry_fn(), a.len() as int);
    assert((a + b).subrange(0, a.len() as int) =~= a);
    assert((a + b).subrange(a.len() as int, (a + b).len() as int) =~= b);
}

/// Entries added after a header never replace the HTTPS link or the mail
/// address that the header already gave; and the joined header can be parsed
/// exactly when both parts can.
pub proof fn lemma_appending_keeps_first_links(h: Seq<char>, s: Seq<char>)
    ensures
        spec_parse_list_unsubscribe(h).0 is Some ==> spec_parse_list_unsubscribe(h + seq![','] + s).0
            == spec_parse_list_unsubscribe(h).0,
        spec_parse_list_unsubscribe(h).1 is Some ==> spec_parse_list_unsubscribe(h + seq![','] + s).1
            == spec_parse_list_unsubscribe(h).1,
        parsable_header(h + seq![','] + s) <==> (parsable_header(h) && parsable_header(s)),
{
    let a = split_on(h, ',');
    let b = split_on(s, ',');
    let j = h + seq![','] + s;
    lemma_split_on_join(h, s, ',');
    lemma_fold_join(a, b, (None, None));
    lemma_fold_keeps_found(b, a.fold_left((None, None), absorb_entry_fn()));
    if parsable_header(j) {
        assert forall|i: int| 0 <= i < a.len() implies #[trigger] entry_parsable(a[i]) by {
            assert(split_on(j, ',')[i] == a[i]);
        }
        assert forall|i: int| 0 <= i < b.len() implies #[trigger] entry_parsable(b[i]) by {
            assert(split_on(j, ',')[a.len() + i] == b[i]);
        }
    }
    if parsable_header(h) && parsable_header(s) {
        assert forall|i: int| 0 <= i < split_on(j, ',').len() implies #[trigger] entry_parsable(
            split_on(j, ',')[i],
        ) by {
            if i < a.len() {
                assert(entry_parsable(a[i]));
            } else {
                assert(entry_parsable(b[i - a.len()]));
            }
        }
    }
}

/// An entry that names no HTTPS or `mailto:` URI changes nothing, whether it
/// is added after the header or before it.
pub proof fn lemma_entry_without_link_changes_nothing(h: Seq<char>, s: Seq<char>)
    requires
        !s.contains(','),
        names_no_link(s),
    ensures
        spec_parse_list_unsubscribe(h + seq![','] + s) == spec_parse_list_unsubscribe(h),
        spec_parse_list_unsubscribe(s + seq![','] + h) == spec_parse_list_unsubscribe(h),
{
    let a = split_on(h, ',');
    let one = seq![s];
    let start: LinkPair = (None, None);
    lemma_split_on_without_sep(s, ',');
    assert(one.drop_last() =~= Seq::<Seq<char>>::empty());
    assert(one.last() == s);
    reveal_with_fuel(Seq::fold_left, 2);
    assert(absorb_entry(start, s) == start);
    assert(one.fold_left(start, absorb_entry_fn()) == start);
    lemma_split_on_join(h, s, ',');
    lemma_fold_join(a, one, start);
    let acc = a.fold_left(start, absorb_entry_fn());
    assert(absorb_entry(acc, s) == acc);
    assert(one.fold_left(acc, absorb_entry_fn()) == acc);
    lemma_split_on_join(s, h, ',');
    lemma_fold_join(one, a, start);
}

/// A header that is one URI in angle brackets names that URI: an HTTPS URI
/// becomes the link, a `mailto:` URI gives the address after the scheme,
/// and any other URI gives nothing.
pub proof fn lemma_single_entry(u: Seq<char>)
    requires
        u.len() > 0,
        !spec_is_whitespace(u[0]),
        !spec_is_whitespace(u.last()),
        !u.contains('<'),
        !u.contains('>'),
        !u.contains(','),
    ensures
        "https://"@.is_prefix_of(u) ==> spec_parse_list_unsubscribe(seq!['<'] + u + seq!['>']) == (
            Some(u),
            None::<Seq<char>>,
        ),
        "mailto:"@.is_prefix_of(u) ==> spec_parse_list_unsubscribe(seq!['<'] + u + seq!['>']) == (
            None::<Seq<char>>,
            Some(u.skip(7)),
        ),
        !"https://"@.is_prefix_of(u) && !"mailto:"@.is_prefix_of(u) ==> spec_parse_list_unsubscribe(
            seq!['<'] + u + seq!['>'],
        ) == (None::<Seq<char>>, None::<Seq<char>>),
{
    reveal_strlit("https://");
    reveal_strlit("mailto:");
    let e = seq!['<'] + u + seq!['>'];
    let n = e.len() - 1;
    assert(e[0] == '<');
    assert(e.last() == '>');
    assert(e[n] == '>');
    assert forall|k: int| 1 <= k < n implies #[trigger] e[k] == u[k - 1] by {}
    assert(!e.contains(',')) by {
        if e.contains(',') {
            let k = choose|k: int| 0 <= k < e.len() && e[k] == ',';
            assert(u[k - 1] == ',');
        }
    }
    lemma_split_on_without_sep(e, ',');
    let one = seq![e];
    assert(one.drop_last() =~= Seq::<Seq<char>>::empty());
    assert(one.last() == e);
    reveal_with_fuel(Seq::fold_left, 2);
    assert(spec_parse_list_unsubscribe(e) == absorb_entry((None, None), e));
    assert(!spec_is_whitespace('<'));
    assert(!spec_is_whitespace('>'));
    assert(trim_start(e) == e);
    assert(trim_end(e) == e);
    lemma_index_of_first_at(e, '<', 0);
    assert forall|k: int| 0 <= k < n implies e[k] != '>' by {
        if k > 0 {
            assert(e[k] == u[k - 1]);
            if u[k - 1] == '>' {
                assert(u.contains('>'));
            }
        }
    }
    lemma_index_of_first_at(e, '>', n);
    assert(e.subrange(1, n) =~= u);
    assert(trim_start(u) == u);
    assert(trim_end(u) == u);
    assert(entry_uri(e) == Some(u));
    assert(https_scheme() == "https://"@);
    assert(mailto_scheme() == "mailto:"@);
    if "mailto:"@.is_prefix_of(u) {
        assert(u[0] == "mailto:"@[0]);
        if "https://"@.is_prefix_of(u) {
            assert(u[0] == "https://"@[0]);
        }
    }
}

/// Takes the entry `v[lo..hi]` into account.
fn absorb_entry_exec(
    header: &str,
    v: &Vec<char>,
    lo: usize,
    hi: usize,
    https_p: &Vec<char>,
    mailto_p: &Vec<char>,
    https_url: &mut Option<String>,
    mailto: &mut Option<String>,
) -> (ok: bool)
    requires
        v@ == header@,
        lo <= hi <= v@.len(),
        https_p@ == https_scheme(),
        mailto_p@ == mailto_scheme(),
    ensures
        (opt_view(*final(https_url)), opt_view(*final(mailto))) == absorb_entry(
            (opt_view(*old(https_url)), opt_view(*old(mailto))),
            v@.subrange(lo as int, hi as int),
        ),
        ok == entry_parsable(v@.subrange(lo as int, hi as int)),
{
    let (a, b) = trim_bounds(v, lo, hi);
    let ghost t = v@.subrange(a as int, b as int);
    let lt = find_char(v, a, b, '<');
    let gt = find_char(v, a, b, '>');
    match (lt, gt) {
        (Some(st), Some(en)) => {
            if st < en {
                let (ua, ub) = trim_bounds(v, st + 1, en);
                assert(t.subrange(st + 1 - a, en - a) =~= v@.subrange(st + 1, en as int));
                if has_prefix(v, ua, ub, https_p) && https_url.is_none() {
                    *https_url = Some(String::from_str(header.substring_char(ua, ub)));
                } else if has_prefix(v, ua, ub, mailto_p) && mailto.is_none() {
                    assert(v@.subrange(ua as int, ub as int).skip(mailto_p@.len() as int)
                        =~= v@.subrange(ua + mailto_p@.len(), ub as int));
                    *mailto = Some(
                        String::from_str(header.substring_char(ua + mailto_p.len(), ub)),
                    );
                }
                true
            } else {
                false
            }
        },
        _ => true,
    }
}

/// Runs through the entries of `header` once: the links it names, and whether
/// every entry can be cut into a URI.
fn scan_list_unsubscribe(header: &str) -> (r: (Option<String>, Option<String>, bool))
    ensures
        (opt_view(r.0), opt_view(r.1)) == spec_parse_list_unsubscribe(header@),
        r.2 == parsable_header(header@),
{
    let v = chars_of(header);
    let https_p = chars_of("https://");
    let mailto_p = chars_of("mailto:");
    let n = v.len();
    let mut https_url: Option<String> = None;
    let mut mailto: Option<String> = None;
    let mut ok = true;
    let mut seg: usize = 0;
    let mut i: usize = 0;
    let ghost mut done: Seq<Seq<char>> = Seq::empty();
    assert(v@.take(0) =~= Seq::<char>::empty());
    assert(v@.subrange(0, 0) =~= Seq::<char>::empty());
    while i < n
        invariant
            n == v@.len(),
            v@ == header@,
            https_p@ == https_scheme(),
            mailto_p@ == mailto_scheme(),
            seg <= i <= n,
            split_on(v@.take(i as int), ',') == done.push(v@.subrange(seg as int, i as int)),
            (opt_view(https_url), opt_view(mailto)) == done.fold_left(
                (None, None),
                absorb_entry_fn(),
            ),
            ok == (forall|k: int| 0 <= k < done.len() ==> #[trigger] entry_parsable(done[k])),
        decreases n - i,
    {
        assert(v@.take(i + 1).drop_last() =~= v@.take(i as int));
        if v[i] == ',' {
            let e = absorb_entry_exec(
                header,
                &v,
                seg,
                i,
                &https_p,
                &mailto_p,
                &mut https_url,
                &mut mailto,
            );
            let ghost piece = v@.subrange(seg as int, i as int);
            proof {
                assert(done.push(piece).drop_last() =~= done);
                done = done.push(piece);
                assert(v@.subrange(i + 1, i + 1) =~= Seq::<char>::empty());
            }
            ok = ok && e;
            seg = i + 1;
        } else {
            assert(v@.subrange(seg as int, i + 1) =~= v@.subrange(seg as int, i as int).push(
                v@[i as int],
            ));
        }
        i = i + 1;
    }
    let e = absorb_entry_exec(header, &v, seg, n, &https_p, &mailto_p, &mut https_url, &mut mailto);
    let ghost piece = v@.subrange(seg as int, n as int);
    proof {
        assert(v@.take(n as int) =~= v@);
        assert(done.push(piece).drop_last() =~= done);
        assert(split_on(header@, ',') == done.push(piece));
        assert forall|k: int| 0 <= k < done.push(piece).len() implies #[trigger] entry_parsable(
            done.push(piece)[k],
        ) == (if k < done.len() {
            entry_parsable(done[k])
        } else {
            entry_parsable(piece)
        }) by {}
        if ok && e {
            assert(parsable_header(header@));
        }
        if !(ok && e) {
            if !e {
                assert(!entry_parsable(split_on(header@, ',')[done.len() as int]));
            } else {
                let k = choose|k: int| 0 <= k < done.len() && !entry_parsable(done[k]);
                assert(!entry_parsable(split_on(header@, ',')[k]));
            }
        }
    }
    (https_url, mailto, ok && e)
}

/// Whether every comma-separated entry of a `List-Unsubscribe` value can be
/// cut into a URI, which `parse_list_unsubscribe` needs.
pub fn list_unsubscribe_parsable(header: &str) -> (r: bool)
    ensures
        r == parsable_header(header@),
{
    scan_list_unsubscribe(header).2
}

/// Parses a `List-Unsubscribe` value into its HTTPS URL and mailto address.
///
/// The value is a comma-separated list of angle-bracket-enclosed URIs, such as
/// `<https://example.com/unsub>, <mailto:unsub@example.com>`. The first URI
/// that starts with `https://` is the URL; the first that starts with
/// `mailto:` gives the address, without the scheme.
pub fn parse_list_unsubscribe(header: &str) -> (r: (Option<String>, Option<String>))
    requires
        parsable_header(header@),
    ensures
        (opt_view(r.0), opt_view(r.1)) == spec_parse_list_unsubscribe(header@),
        r.0 matches Some(u) ==> https_scheme().is_prefix_of(u@),
{
    let (https_url, mailto, _) = scan_list_unsubscribe(header);
    proof {
        lemma_kept_link_is_https(split_on(header@, ','));
    }
    (https_url, mailto)
}

/// One message header as the Gmail API returns it; a name or value that is
/// missing or not a string is `None`.
pub struct HeaderField {
    pub name: Option<String>,
    pub value: Option<String>,
}

/// What the unsubscribe logic reads from a message's headers.
pub struct HeaderSummary {
    /// The last `From` value, or empty.
    pub from: String,
    /// The last `List-Unsubscribe` value, or empty.
    pub list_unsubscribe: String,
    /// Whether the last `List-Unsubscribe-Post` value asks for one-click.
    pub has_post_header: bool,
}

/// The view of a `HeaderSummary`: from, list-unsubscribe value, one-click flag.
pub type SummaryView = (Seq<char>, Seq<char>, bool);

impl View for HeaderSummary {
    type V = SummaryView;

    open spec fn view(&self) -> SummaryView {
        (self.from@, self.list_unsubscribe@, self.has_post_header)
    }
}

/// The text of an optional header field, empty when it is missing.
pub open spec fn field_text(o: Option<String>) -> Seq<char> {
    match o {
        Some(s) => s@,
        None => Seq::empty(),
    }
}

/// The value that `List-Unsubscribe-Post` must hold for one-click unsubscribe.
pub open spec fn one_click_marker() -> Seq<char> {
    "List-Unsubscribe=One-Click"@
}

/// One header taken into account: a later `From`, `List-Unsubscribe` or
/// `List-Unsubscribe-Post` replaces an earlier one; other names are ignored.
pub open spec fn absorb_header(acc: SummaryView, h: HeaderField) -> SummaryView {
    let name = field_text(h.name);
    let value = field_text(h.value);
    if name == "From"@ {
        (value, acc.1, acc.2)
    } else if name == "List-Unsubscribe"@ {
        (acc.0, value, acc.2)
    } else if name == "List-Unsubscribe-Post"@ {
        (acc.0, acc.1, contains_seq(value, one_click_marker()))
    } else {
        acc
    }
}

/// `absorb_header` as a function value, for folds.
pub open spec fn absorb_header_fn() -> spec_fn(SummaryView, HeaderField) -> SummaryView {
    |acc: SummaryView, h: HeaderField| absorb_header(acc, h)
}

/// What a list of headers says, read in order.
pub open spec fn spec_summarize_headers(headers: Seq<HeaderField>) -> SummaryView {
    headers.fold_left((Seq::empty(), Seq::empty(), false), absorb_header_fn())
}

/// The text of an optional header field, as characters and as a string.
fn field_parts(o: &Option<String>) -> (r: (Vec<char>, String))
    ensures
        r.0@ == field_text(*o),
        r.1@ == field_text(*o),
{
    match o {
        Some(s) => (chars_of(s.as_str()), s.clone()),
        None => (Vec::new(), String::new()),
    }
}

/// Reads the `From`, `List-Unsubscribe` and `List-Unsubscribe-Post` headers.
pub fn summarize_headers(headers: &[HeaderField]) -> (r: HeaderSummary)
    ensures
        r@ == spec_summarize_headers(headers@),
{
    let from_name = chars_of("From");
    let list_name = chars_of("List-Unsubscribe");
    let post_name = chars_of("List-Unsubscribe-Post");
    let marker = chars_of("List-Unsubscribe=One-Click");
    let mut from = String::new();
    let mut list_unsubscribe = String::new();
    let mut has_post_header = false;
    let mut i: usize = 0;
    while i < headers.len()
        invariant
            from_name@ == "From"@,
            list_name@ == "List-Unsubscribe"@,
            post_name@ == "List-Unsubscribe-Post"@,
            marker@ == one_click_marker(),
            0 <= i <= headers@.len(),
            (from@, list_unsubscribe@, has_post_header) == spec_summarize_headers(
                headers@.take(i as int),
            ),
        decreases headers@.len() - i,
    {
        assert(headers@.take(i + 1).drop_last() =~= headers@.take(i as int));
        let h = &headers[i];
        let (name, _) = field_parts(&h.name);
        let (value_chars, value) = field_parts(&h.value);
        if chars_equal(&name, &from_name) {
            from = value;
        } else if chars_equal(&name, &list_name) {
            list_unsubscribe = value;
        } else if chars_equal(&name, &post_name) {
            has_post_header = contains_chars(&value_chars, &marker);
        }
        i = i + 1;
    }
    assert(headers@.take(headers@.len() as int) =~= headers@);
    HeaderSummary { from, list_unsubscribe, has_post_header }
}

/// `hs[i]` is the last header named `n`.
pub open spec fn is_last_named(hs: Seq<HeaderField>, i: int, n: Seq<char>) -> bool {
    &&& 0 <= i < hs.len()
    &&& field_text(hs[i].name) == n
    &&& forall|j: int| i < j < hs.len() ==> field_text(#[trigger] hs[j].name) != n
}

/// No header of `hs` is named `n`.
pub open spec fn none_named(hs: Seq<HeaderField>, n: Seq<char>) -> bool {
    forall|j: int| 0 <= j < hs.len() ==> field_text(#[trigger] hs[j].name) != n
}

/// The last header named `n` is either the last header or the last one
/// named `n` before it.
proof fn lemma_last_named_step(hs: Seq<HeaderField>, i: int, n: Seq<char>)
    requires
        is_last_named(hs, i, n),
    ensures
        i == hs.len() - 1 || (is_last_named(hs.drop_last(), i, n) && field_text(hs.last().name)
            != n),
{
    let p = hs.drop_last();
    if i < hs.len() - 1 {
        assert(field_text(hs[hs.len() - 1].name) != n);
        assert(p[i] == hs[i]);
        assert forall|j: int| i < j < p.len() implies field_text(#[trigger] p[j].name) != n by {
            assert(p[j] == hs[j]);
        }
    }
}

/// Without a header named `n`, neither the headers before the last nor the
/// last one are named `n`.
proof fn lemma_none_named_step(hs: Seq<HeaderField>, n: Seq<char>)
    requires
        none_named(hs, n),
        hs.len() > 0,
    ensures
        none_named(hs.drop_last(), n),
        field_text(hs.last().name) != n,
{
    let p = hs.drop_last();
    assert(field_text(hs[hs.len() - 1].name) != n);
    assert forall|j: int| 0 <= j < p.len() implies field_text(#[trigger] p[j].name) != n by {
        assert(p[j] == hs[j]);
    }
}

/// The summary holds the value of the last `From` header and of the last
/// `List-Unsubscribe` header (empty when there is none), and the one-click
/// flag is set exactly when the last `List-Unsubscribe-Post` header contains
/// `List-Unsubscribe=One-Click`, whatever other headers come after it.
pub proof fn lemma_summary_reads_last_headers(hs: Seq<HeaderField>)
    ensures
        forall|i: int|
            #[trigger] is_last_named(hs, i, "From"@) ==> spec_summarize_headers(hs).0 == field_text(
                hs[i].value,
            ),
        none_named(hs, "From"@) ==> spec_summarize_headers(hs).0 == Seq::<char>::empty(),
        forall|i: int|
            #[trigger] is_last_named(hs, i, "List-Unsubscribe"@) ==> spec_summarize_headers(hs).1
                == field_text(hs[i].value),
        none_named(hs, "List-Unsubscribe"@) ==> spec_summarize_headers(hs).1 == Seq::<
            char,
        >::empty(),
        forall|i: int|
            #[trigger] is_last_named(hs, i, "List-Unsubscribe-Post"@) ==> (spec_summarize_headers(
                hs,
            ).2 <==> contains_seq(field_text(hs[i].value), "List-Unsubscribe=One-Click"@)),
        none_named(hs, "List-Unsubscribe-Post"@) ==> !spec_summarize_headers(hs).2,
    decreases hs.len(),
{
    reveal_strlit("From");
    reveal_strlit("List-Unsubscribe");
    reveal_strlit("List-Unsubscribe-Post");
    let nf = "From"@;
    let nl = "List-Unsubscribe"@;
    let np = "List-Unsubscribe-Post"@;
    assert(nf.len() == 4 && nl.len() == 16 && np.len() == 21);
    assert(nf != nl && nf != np && nl != np);
    if hs.len() > 0 {
        let p = hs.drop_last();
        let h = hs.last();
        lemma_summary_reads_last_headers(p);
        assert(spec_summarize_headers(hs) == absorb_header(spec_summarize_headers(p), h));
        assert(hs[hs.len() - 1] == h);
        assert forall|i: int| #[trigger] is_last_named(hs, i, nf) implies spec_summarize_headers(
            hs,
        ).0 == field_text(hs[i].value) by {
            lemma_last_named_step(hs, i, nf);
            if i < hs.len() - 1 {
                assert(is_last_named(p, i, nf));
                assert(p[i] == hs[i]);
            }
        }
        assert forall|i: int| #[trigger] is_last_named(hs, i, nl) implies spec_summarize_headers(
            hs,
        ).1 == field_text(hs[i].value) by {
            lemma_last_named_step(hs, i, nl);
            if i < hs.len() - 1 {
                assert(is_last_named(p, i, nl));
                assert(p[i] == hs[i]);
            }
        }
        assert forall|i: int| #[trigger] is_last_named(hs, i, np) implies (spec_summarize_headers(
            hs,
        ).2 <==> contains_seq(field_text(hs[i].value), "List-Unsubscribe=One-Click"@)) by {
            lemma_last_named_step(hs, i, np);
            if i < hs.len() - 1 {
                assert(is_last_named(p, i, np));
                assert(p[i] == hs[i]);
            }
        }
        if none_named(hs, nf) {
            lemma_none_named_step(hs, nf);
        }
        if none_named(hs, nl) {
            lemma_none_named_step(hs, nl);
        }
        if none_named(hs, np) {
            lemma_none_named_step(hs, np);
        }
    }
}

/// What the unsubscribe logic keeps of one message.
pub struct MessageUnsubInfo {
    pub message_id: String,
    pub from: String,
    pub https_url: Option<String>,
    pub mailto: Option<String>,
    pub has_post_header: bool,
}

/// The view of a `MessageUnsubInfo`.
pub struct MessageView {
    pub message_id: Seq<char>,
    pub from: Seq<char>,
    pub https_url: Option<Seq<char>>,
    pub mailto: Option<Seq<char>>,
    pub has_post_header: bool,
}

impl View for MessageUnsubInfo {
    type V = MessageView;

    open spec fn view(&self) -> MessageView {
        MessageView {
            message_id: self.message_id@,
            from: self.from@,
            https_url: opt_view(self.https_url),
            mailto: opt_view(self.mailto),
            has_post_header: self.has_post_header,
        }
    }
}

/// The message record for `message_id` with the headers `summary`: none when
/// the message has no `List-Unsubscribe` value.
pub fn message_unsub_info(message_id: String, summary: HeaderSummary) -> (r: Option<
    MessageUnsubInfo,
>)
    requires
        parsable_header(summary.list_unsubscribe@),
    ensures
        r is None <==> summary.list_unsubscribe@.len() == 0,
        r matches Some(m) ==> {
            &&& m.message_id@ == message_id@
            &&& m.from@ == summary.from@
            &&& (m@.https_url, m@.mailto) == spec_parse_list_unsubscribe(
                summary.list_unsubscribe@,
            )
            &&& m.has_post_header == summary.has_post_header
        },
{
    if summary.list_unsubscribe.as_str().is_empty() {
        return None;
    }
    let (https_url, mailto) = parse_list_unsubscribe(summary.list_unsubscribe.as_str());
    Some(
        MessageUnsubInfo {
            message_id,
            from: summary.from,
            https_url,
            mailto,
            has_post_header: summary.has_post_header,
        },
    )
}

} // verus!
