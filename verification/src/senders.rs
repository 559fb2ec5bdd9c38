//! Grouping the messages that carry a `List-Unsubscribe` header by sender,
//! ordering the senders by message count, and the listing built from them.
use vstd::prelude::*;
use crate::list_unsubscribe::{opt_view, MessageUnsubInfo, MessageView};
use crate::text::lemma_index_of_first_at;
use crate::text::lemma_index_of_first_none;

verus! {

/// What is known of one sender over the scanned messages.
pub struct SenderInfo {
    pub from: String,
    pub count: u32,
    pub has_rfc8058: bool,
    pub unsubscribe_url: Option<String>,
    pub mailto: Option<String>,
}

/// The view of a `SenderInfo`.
pub struct SenderView {
    pub from: Seq<char>,
    pub count: nat,
    pub has_rfc8058: bool,
    pub unsubscribe_url: Option<Seq<char>>,
    pub mailto: Option<Seq<char>>,
}

impl View for SenderInfo {
    type V = SenderView;

    open spec fn view(&self) -> SenderView {
        SenderView {
            from: self.from@,
            count: self.count as nat,
            has_rfc8058: self.has_rfc8058,
            unsubscribe_url: opt_view(self.unsubscribe_url),
            mailto: opt_view(self.mailto),
        }
    }
}

/// The views of a list of senders.
pub open spec fn senders_view(s: Seq<SenderInfo>) -> Seq<SenderView> {
    s.map_values(|x: SenderInfo| x@)
}

/// The views of a list of messages.
pub open spec fn messages_view(s: Seq<MessageUnsubInfo>) -> Seq<MessageView> {
    s.map_values(|x: MessageUnsubInfo| x@)
}

/// The senders' addresses, in order.
pub open spec fn froms(g: Seq<SenderView>) -> Seq<Seq<char>> {
    g.map_values(|s: SenderView| s.from)
}

/// A sender of whom no message has been seen yet.
pub open spec fn blank_sender(from: Seq<char>) -> SenderView {
    SenderView { from, count: 0, has_rfc8058: false, unsubscribe_url: None, mailto: None }
}

/// One more message of the sender `s`: the count grows, one-click support is
/// kept once seen, and the first link and address seen are kept.
pub open spec fn merge_message(s: SenderView, m: MessageView) -> SenderView {
    SenderView {
        from: s.from,
        count: s.count + 1,
        has_rfc8058: s.has_rfc8058 || m.has_post_header,
        unsubscribe_url: if s.unsubscribe_url is None {
            m.https_url
        } else {
            s.unsubscribe_url
        },
        mailto: if s.mailto is None {
            m.mailto
        } else {
            s.mailto
        },
    }
}

/// `merge_message` as a function value, for folds.
pub open spec fn merge_message_fn() -> spec_fn(SenderView, MessageView) -> SenderView {
    |s: SenderView, m: MessageView| merge_message(s, m)
}

/// One message taken into the grouping: its sender's entry is updated, or a
/// new entry is added at the end.
pub open spec fn absorb_message(g: Seq<SenderView>, m: MessageView) -> Seq<SenderView> {
    match froms(g).index_of_first(m.from) {
        Some(k) => g.update(k, merge_message(g[k], m)),
        None => g.push(merge_message(blank_sender(m.from), m)),
    }
}

/// `absorb_message` as a function value, for folds.
pub open spec fn absorb_message_fn() -> spec_fn(Seq<SenderView>, MessageView) -> Seq<
    SenderView,
> {
    |g: Seq<SenderView>, m: MessageView| absorb_message(g, m)
}

/// The senders of `ms`, in the order of their first message.
pub open spec fn spec_group_by_sender(ms: Seq<MessageView>) -> Seq<SenderView> {
    ms.fold_left(Seq::empty(), absorb_message_fn())
}

/// The messages of `ms` whose sender is `f`, in order.
pub open spec fn messages_from(ms: Seq<MessageView>, f: Seq<char>) -> Seq<MessageView>
    decreases ms.len(),
{
    if ms.len() == 0 {
        ms
    } else {
        let p = messages_from(ms.drop_last(), f);
        if ms.last().from == f {
            p.push(ms.last())
        } else {
            p
        }
    }
}

/// What the messages of sender `f` say of it, taken one by one.
pub open spec fn sender_summary(ms: Seq<MessageView>, f: Seq<char>) -> SenderView {
    messages_from(ms, f).fold_left(blank_sender(f), merge_message_fn())
}

/// Where a sender of `c` messages goes in a list ordered by decreasing count:
/// before the first sender with fewer messages, so that equal counts keep
/// their order.
pub open spec fn insert_pos(s: Seq<SenderView>, c: nat) -> int {
    match s.map_values(|x: SenderView| x.count < c).index_of_first(true) {
        Some(k) => k,
        None => s.len() as int,
    }
}

/// `x` inserted into a list ordered by decreasing count.
pub open spec fn insert_by_count(s: Seq<SenderView>, x: SenderView) -> Seq<SenderView> {
    s.insert(insert_pos(s, x.count), x)
}

/// `insert_by_count` as a function value, for folds.
pub open spec fn insert_by_count_fn() -> spec_fn(Seq<SenderView>, SenderView) -> Seq<
    SenderView,
> {
    |s: Seq<SenderView>, x: SenderView| insert_by_count(s, x)
}

/// `s` ordered by decreasing count, stably.
pub open spec fn spec_sort_by_count(s: Seq<SenderView>) -> Seq<SenderView> {
    s.fold_left(Seq::empty(), insert_by_count_fn())
}

/// No message of `ms` comes from `f`.
proof fn lemma_no_messages_from(ms: Seq<MessageView>, f: Seq<char>)
    requires
        forall|i: int| 0 <= i < ms.len() ==> ms[i].from != f,
    ensures
        messages_from(ms, f) == Seq::<MessageView>::empty(),
    decreases ms.len(),
{
    if ms.len() > 0 {
        lemma_no_messages_from(ms.drop_last(), f);
    }
}

/// `ms[i]` is the first message from `f` that carries an HTTPS link.
pub open spec fn first_link_of(ms: Seq<MessageView>, i: int, f: Seq<char>) -> bool {
    &&& 0 <= i < ms.len()
    &&& ms[i].from == f
    &&& ms[i].https_url is Some
    &&& forall|j: int| 0 <= j < i && (#[trigger] ms[j]).from == f ==> ms[j].https_url is None
}

/// `ms[i]` is the first message from `f` that carries a mail address.
pub open spec fn first_mailto_of(ms: Seq<MessageView>, i: int, f: Seq<char>) -> bool {
    &&& 0 <= i < ms.len()
    &&& ms[i].from == f
    &&& ms[i].mailto is Some
    &&& forall|j: int| 0 <= j < i && (#[trigger] ms[j]).from == f ==> ms[j].mailto is None
}

/// Some message from `f` asks for one-click unsubscribe.
pub open spec fn some_one_click_from(ms: Seq<MessageView>, f: Seq<char>) -> bool {
    exists|i: int| 0 <= i < ms.len() && (#[trigger] ms[i]).from == f && ms[i].has_post_header
}

/// No message from `f` carries an HTTPS link.
pub open spec fn no_link_from(ms: Seq<MessageView>, f: Seq<char>) -> bool {
    forall|i: int| 0 <= i < ms.len() && (#[trigger] ms[i]).from == f ==> ms[i].https_url is None
}

/// No message from `f` carries a mail address.
pub open spec fn no_mailto_from(ms: Seq<MessageView>, f: Seq<char>) -> bool {
    forall|i: int| 0 <= i < ms.len() && (#[trigger] ms[i]).from == f ==> ms[i].mailto is None
}

/// What the messages of `f` say of it: one-click support exactly when some
/// message asks for it, and the link and the address of the first message
/// that carries one.
proof fn lemma_sender_summary_facts(ms: Seq<MessageView>, f: Seq<char>)
    ensures
        sender_summary(ms, f).from == f,
        sender_summary(ms, f).count == ms.filter(|m: MessageView| m.from == f).len(),
        sender_summary(ms, f).has_rfc8058 <==> some_one_click_from(ms, f),
        no_link_from(ms, f) ==> sender_summary(ms, f).unsubscribe_url is None,
        forall|i: int|
            #[trigger] first_link_of(ms, i, f) ==> sender_summary(ms, f).unsubscribe_url
                == ms[i].https_url,
        no_mailto_from(ms, f) ==> sender_summary(ms, f).mailto is None,
        forall|i: int|
            #[trigger] first_mailto_of(ms, i, f) ==> sender_summary(ms, f).mailto == ms[i].mailto,
    decreases ms.len(),
{
    if ms.len() == 0 {
        return;
    }
    let p = ms.drop_last();
    let m = ms.last();
    let n = ms.len() - 1;
    lemma_sender_summary_facts(p, f);
    reveal_with_fuel(Seq::filter, 1);
    assert(ms.filter(|x: MessageView| x.from == f) == (if m.from == f {
        p.filter(|x: MessageView| x.from == f).push(m)
    } else {
        p.filter(|x: MessageView| x.from == f)
    }));
    assert(ms[n] == m);
    assert forall|j: int| 0 <= j < p.len() implies #[trigger] p[j] == ms[j] by {}
    let sp = sender_summary(p, f);
    let sm = sender_summary(ms, f);
    if m.from == f {
        assert(messages_from(ms, f) == messages_from(p, f).push(m));
        assert(messages_from(ms, f).drop_last() =~= messages_from(p, f));
        assert(sm == merge_message(sp, m));
    } else {
        assert(messages_from(ms, f) == messages_from(p, f));
        assert(sm == sp);
    }
    // one-click support
    if sm.has_rfc8058 {
        if m.from == f && m.has_post_header {
            assert(ms[n].from == f && ms[n].has_post_header);
        } else {
            let i = choose|i: int| 0 <= i < p.len() && (#[trigger] p[i]).from == f && p[i].has_post_header;
            assert(ms[i] == p[i]);
        }
    }
    if some_one_click_from(ms, f) {
        let i = choose|i: int| 0 <= i < ms.len() && (#[trigger] ms[i]).from == f && ms[i].has_post_header;
        if i < n {
            assert(p[i] == ms[i]);
            assert(some_one_click_from(p, f));
        }
    }
    // the link
    if no_link_from(ms, f) {
        assert forall|i: int| 0 <= i < p.len() && (#[trigger] p[i]).from == f implies p[i].https_url is None by {
            assert(ms[i] == p[i]);
        }
        if m.from == f {
            assert(ms[n].https_url is None);
        }
    }
    assert forall|i: int| #[trigger] first_link_of(ms, i, f) implies sm.unsubscribe_url == ms[i].https_url by {
        if i < n {
            assert forall|j: int| 0 <= j < i && (#[trigger] p[j]).from == f implies p[j].https_url is None by {
                assert(ms[j] == p[j]);
            }
            assert(first_link_of(p, i, f));
        } else {
            assert forall|j: int| 0 <= j < p.len() && (#[trigger] p[j]).from == f implies p[j].https_url is None by {
                assert(ms[j] == p[j]);
            }
            assert(no_link_from(p, f));
        }
    }
    // the address
    if no_mailto_from(ms, f) {
        assert forall|i: int| 0 <= i < p.len() && (#[trigger] p[i]).from == f implies p[i].mailto is None by {
            assert(ms[i] == p[i]);
        }
        if m.from == f {
            assert(ms[n].mailto is None);
        }
    }
    assert forall|i: int| #[trigger] first_mailto_of(ms, i, f) implies sm.mailto == ms[i].mailto by {
        if i < n {
            assert forall|j: int| 0 <= j < i && (#[trigger] p[j]).from == f implies p[j].mailto is None by {
                assert(ms[j] == p[j]);
            }
            assert(first_mailto_of(p, i, f));
        } else {
            assert forall|j: int| 0 <= j < p.len() && (#[trigger] p[j]).from == f implies p[j].mailto is None by {
                assert(ms[j] == p[j]);
            }
            assert(no_mailto_from(p, f));
        }
    }
}

/// Every listed sender sent at least one of the messages.
pub proof fn lemma_group_senders_sent(ms: Seq<MessageView>)
    ensures
        forall|k: int|
            0 <= k < spec_group_by_sender(ms).len() ==> exists|i: int|
                0 <= i < ms.len() && ms[i].from == (#[trigger] spec_group_by_sender(ms)[k]).from,
    decreases ms.len(),
{
    if ms.len() > 0 {
        let p = ms.drop_last();
        let m = ms.last();
        lemma_group_senders_sent(p);
        let gp = spec_group_by_sender(p);
        let g = spec_group_by_sender(ms);
        assert(g == absorb_message(gp, m));
        assert(ms[ms.len() - 1] == m);
        froms(gp).index_of_first_ensures(m.from);
        assert(froms(gp).len() == gp.len());
        assert forall|k: int| 0 <= k < g.len() implies exists|i: int|
            0 <= i < ms.len() && ms[i].from == (#[trigger] g[k]).from by {
            match froms(gp).index_of_first(m.from) {
                Some(j) => {
                    assert(g == gp.update(j, merge_message(gp[j], m)));
                    assert(g[k].from == gp[k].from);
                    let i = choose|i: int| 0 <= i < p.len() && p[i].from == (#[trigger] gp[k]).from;
                    assert(ms[i] == p[i]);
                },
                None => {
                    assert(g == gp.push(merge_message(blank_sender(m.from), m)));
                    if k < gp.len() {
                        assert(g[k] == gp[k]);
                        let i = choose|i: int| 0 <= i < p.len() && p[i].from == (#[trigger] gp[k]).from;
                        assert(ms[i] == p[i]);
                    } else {
                        assert(g[k].from == m.from);
                    }
                },
            }
        }
    }
}

/// Each sender's entry says what its own messages say: one-click support
/// exactly when some message of that sender asks for it, as many messages as
/// the sender sent, and the link and
/// the address of the sender's first message that carries one (none when
/// no message of the sender carries one).
pub proof fn lemma_sender_entries(ms: Seq<MessageView>)
    ensures
        forall|k: int|
            0 <= k < spec_group_by_sender(ms).len() ==> (#[trigger] spec_group_by_sender(
                ms,
            )[k]).has_rfc8058 == some_one_click_from(ms, spec_group_by_sender(ms)[k].from),
        forall|k: int|
            0 <= k < spec_group_by_sender(ms).len() ==> (#[trigger] spec_group_by_sender(
                ms,
            )[k]).count == ms.filter(|m: MessageView| m.from == spec_group_by_sender(ms)[k].from).len(),
        forall|k: int|
            0 <= k < spec_group_by_sender(ms).len() && no_link_from(
                ms,
                #[trigger] spec_group_by_sender(ms)[k].from,
            ) ==> spec_group_by_sender(ms)[k].unsubscribe_url is None,
        forall|k: int, i: int|
            0 <= k < spec_group_by_sender(ms).len() && #[trigger] first_link_of(
                ms,
                i,
                spec_group_by_sender(ms)[k].from,
            ) ==> spec_group_by_sender(ms)[k].unsubscribe_url == ms[i].https_url,
        forall|k: int|
            0 <= k < spec_group_by_sender(ms).len() && no_mailto_from(
                ms,
                #[trigger] spec_group_by_sender(ms)[k].from,
            ) ==> spec_group_by_sender(ms)[k].mailto is None,
        forall|k: int, i: int|
            0 <= k < spec_group_by_sender(ms).len() && #[trigger] first_mailto_of(
                ms,
                i,
                spec_group_by_sender(ms)[k].from,
            ) ==> spec_group_by_sender(ms)[k].mailto == ms[i].mailto,
{
    let g = spec_group_by_sender(ms);
    lemma_group_by_sender(ms);
    assert forall|k: int| 0 <= k < g.len() implies {
        &&& g[k].has_rfc8058 == some_one_click_from(ms, g[k].from)
        &&& g[k].count == ms.filter(|m: MessageView| m.from == g[k].from).len()
        &&& no_link_from(ms, g[k].from) ==> g[k].unsubscribe_url is None
        &&& forall|i: int| #[trigger] first_link_of(ms, i, g[k].from) ==> g[k].unsubscribe_url == ms[i].https_url
        &&& no_mailto_from(ms, g[k].from) ==> g[k].mailto is None
        &&& forall|i: int| #[trigger] first_mailto_of(ms, i, g[k].from) ==> g[k].mailto == ms[i].mailto
    } by {
        assert(g[k] == sender_summary(ms, g[k].from));
        lemma_sender_summary_facts(ms, g[k].from);
    }
}

/// Grouping by sender gives one entry per sender, in no particular relation
/// to the others: the senders are distinct, every message's sender has an
/// entry, and each entry is exactly what that sender's messages say.
pub proof fn lemma_group_by_sender(ms: Seq<MessageView>)
    ensures
        forall|i: int, j: int|
            0 <= i < j < spec_group_by_sender(ms).len() ==> spec_group_by_sender(ms)[i].from
                != spec_group_by_sender(ms)[j].from,
        forall|i: int|
            0 <= i < ms.len() ==> #[trigger] froms(spec_group_by_sender(ms)).contains(
                ms[i].from,
            ),
        forall|k: int|
            0 <= k < spec_group_by_sender(ms).len() ==> #[trigger] spec_group_by_sender(ms)[k]
                == sender_summary(ms, spec_group_by_sender(ms)[k].from),
    decreases ms.len(),
{
    if ms.len() > 0 {
        let p = ms.drop_last();
        let m = ms.last();
        lemma_group_by_sender(p);
        let gp = spec_group_by_sender(p);
        let g = spec_group_by_sender(ms);
        assert(g == absorb_message(gp, m));
        froms(gp).index_of_first_ensures(m.from);
        match froms(gp).index_of_first(m.from) {
            Some(k) => {
                assert(g == gp.update(k, merge_message(gp[k], m)));
                assert(froms(g) =~= froms(gp));
                assert forall|j: int| 0 <= j < g.len() implies #[trigger] g[j] == sender_summary(
                    ms,
                    g[j].from,
                ) by {
                    let f = gp[j].from;
                    assert(gp[j] == sender_summary(p, f));
                    if j == k {
                        assert(messages_from(ms, f) == messages_from(p, f).push(m));
                        assert(messages_from(ms, f).drop_last() =~= messages_from(p, f));
                    } else {
                        assert(froms(gp)[j] == f);
                        assert(messages_from(ms, f) == messages_from(p, f));
                    }
                }
                assert forall|i: int| 0 <= i < ms.len() implies #[trigger] froms(g).contains(
                    ms[i].from,
                ) by {
                    if i < p.len() {
                        assert(p[i] == ms[i]);
                        assert(froms(gp).contains(p[i].from));
                    } else {
                        assert(froms(g)[k] == m.from);
                    }
                }
            },
            None => {
                let n = merge_message(blank_sender(m.from), m);
                assert(g == gp.push(n));
                assert(froms(g) =~= froms(gp).push(m.from));
                assert forall|i: int, j: int| 0 <= i < j < g.len() implies g[i].from
                    != g[j].from by {
                    if j == gp.len() {
                        assert(froms(gp)[i] == gp[i].from);
                    } else {
                        assert(gp[i].from != gp[j].from);
                    }
                }
                assert forall|j: int| 0 <= j < g.len() implies #[trigger] g[j] == sender_summary(
                    ms,
                    g[j].from,
                ) by {
                    if j < gp.len() {
                        let f = gp[j].from;
                        assert(gp[j] == sender_summary(p, f));
                        assert(froms(gp)[j] == f);
                        assert(messages_from(ms, f) == messages_from(p, f));
                    } else {
                        assert forall|i: int| 0 <= i < p.len() implies p[i].from != m.from by {
                            if p[i].from == m.from {
                                assert(froms(gp).contains(p[i].from));
                            }
                        }
                        lemma_no_messages_from(p, m.from);
                        assert(messages_from(ms, m.from) == seq![m]);
                        assert(seq![m].drop_last() =~= Seq::<MessageView>::empty());
                        assert(Seq::<MessageView>::empty().fold_left(
                            blank_sender(m.from),
                            merge_message_fn(),
                        ) == blank_sender(m.from));
                        assert(g[j] == n);
                    }
                }
                assert forall|i: int| 0 <= i < ms.len() implies #[trigger] froms(g).contains(
                    ms[i].from,
                ) by {
                    if i < p.len() {
                        assert(p[i] == ms[i]);
                        assert(froms(gp).contains(p[i].from));
                        let t = choose|t: int| 0 <= t < froms(gp).len() && froms(gp)[t] == p[i].from;
                        assert(froms(g)[t] == p[i].from);
                    } else {
                        assert(froms(g)[gp.len() as int] == m.from);
                    }
                }
            },
        }
    }
}

/// Ordering by count gives the same senders, by decreasing count.
pub proof fn lemma_sort_by_count(s: Seq<SenderView>)
    ensures
        spec_sort_by_count(s).to_multiset() == s.to_multiset(),
        spec_sort_by_count(s).len() == s.len(),
        forall|i: int, j: int|
            0 <= i < j < spec_sort_by_count(s).len() ==> spec_sort_by_count(s)[i].count
                >= spec_sort_by_count(s)[j].count,
    decreases s.len(),
{
    broadcast use vstd::seq_lib::to_multiset_build, vstd::seq_lib::to_multiset_insert;

    if s.len() == 0 {
        assert(spec_sort_by_count(s) =~= Seq::<SenderView>::empty());
        assert(s =~= Seq::<SenderView>::empty());
    } else {
        let p = s.drop_last();
        let x = s.last();
        lemma_sort_by_count(p);
        let r = spec_sort_by_count(p);
        let c = x.count;
        let flags = r.map_values(|y: SenderView| y.count < c);
        flags.index_of_first_ensures(true);
        let pos = insert_pos(r, c);
        assert(0 <= pos <= r.len());
        let out = r.insert(pos, x);
        assert(spec_sort_by_count(s) == out);
        assert(s =~= p.push(x));
        assert forall|i: int| 0 <= i < pos implies r[i].count >= c by {
            assert(flags[i] == (r[i].count < c));
        }
        assert forall|i: int| pos <= i < r.len() implies r[i].count < c by {
            assert(flags[pos] == (r[pos].count < c));
        }
        assert forall|i: int, j: int| 0 <= i < j < out.len() implies out[i].count
            >= out[j].count by {
            if i < pos {
                assert(out[i] == r[i]);
                if j < pos {
                    assert(out[j] == r[j]);
                } else if j > pos {
                    assert(out[j] == r[j - 1]);
                }
            } else if i == pos {
                assert(out[j] == r[j - 1]);
            } else {
                assert(out[i] == r[i - 1]);
                assert(out[j] == r[j - 1]);
            }
        }
    }
}

/// The sum of the counts of `g`.
pub open spec fn total_count(g: Seq<SenderView>) -> int
    decreases g.len(),
{
    if g.len() == 0 {
        0
    } else {
        total_count(g.drop_last()) + g.last().count
    }
}

/// Replacing one sender changes the total by the difference of the counts.
proof fn lemma_total_count_update(g: Seq<SenderView>, k: int, x: SenderView)
    requires
        0 <= k < g.len(),
    ensures
        total_count(g.update(k, x)) == total_count(g) - g[k].count + x.count,
    decreases g.len(),
{
    let u = g.update(k, x);
    if k == g.len() - 1 {
        assert(u.drop_last() =~= g.drop_last());
    } else {
        assert(u.drop_last() =~= g.drop_last().update(k, x));
        lemma_total_count_update(g.drop_last(), k, x);
    }
}

/// Inserting a sender adds its count to the total.
proof fn lemma_total_count_insert(g: Seq<SenderView>, i: int, x: SenderView)
    requires
        0 <= i <= g.len(),
    ensures
        total_count(g.insert(i, x)) == total_count(g) + x.count,
    decreases g.len(),
{
    let u = g.insert(i, x);
    if i == g.len() {
        assert(u.drop_last() =~= g);
    } else {
        assert(u.drop_last() =~= g.drop_last().insert(i, x));
        assert(u.last() == g.last());
        lemma_total_count_insert(g.drop_last(), i, x);
    }
}

/// Every message is counted once: the counts of the senders add up to the
/// number of messages, and ordering them keeps that total.
pub proof fn lemma_ranked_total(ms: Seq<MessageView>)
    ensures
        total_count(spec_group_by_sender(ms)) == ms.len(),
        total_count(spec_ranked_senders(ms)) == ms.len(),
{
    lemma_group_total(ms);
    lemma_sort_total(spec_group_by_sender(ms));
}

/// The counts of the groups add up to the number of messages.
proof fn lemma_group_total(ms: Seq<MessageView>)
    ensures
        total_count(spec_group_by_sender(ms)) == ms.len(),
    decreases ms.len(),
{
    if ms.len() > 0 {
        let p = ms.drop_last();
        let m = ms.last();
        lemma_group_total(p);
        let gp = spec_group_by_sender(p);
        assert(spec_group_by_sender(ms) == absorb_message(gp, m));
        froms(gp).index_of_first_ensures(m.from);
        match froms(gp).index_of_first(m.from) {
            Some(k) => {
                lemma_total_count_update(gp, k, merge_message(gp[k], m));
            },
            None => {
                let n = merge_message(blank_sender(m.from), m);
                assert(gp.push(n).drop_last() =~= gp);
            },
        }
    } else {
        assert(spec_group_by_sender(ms) =~= Seq::<SenderView>::empty());
    }
}

/// Ordering by count keeps the total.
proof fn lemma_sort_total(s: Seq<SenderView>)
    ensures
        total_count(spec_sort_by_count(s)) == total_count(s),
    decreases s.len(),
{
    if s.len() > 0 {
        let p = s.drop_last();
        lemma_sort_total(p);
        let r = spec_sort_by_count(p);
        lemma_sort_by_count(p);
        let flags = r.map_values(|y: SenderView| y.count < s.last().count);
        flags.index_of_first_ensures(true);
        lemma_total_count_insert(r, insert_pos(r, s.last().count), s.last());
    } else {
        assert(spec_sort_by_count(s) =~= Seq::<SenderView>::empty());
    }
}

/// The position of the first sender called `from`, if any.
fn find_sender(groups: &Vec<SenderInfo>, from: &String) -> (r: Option<usize>)
    ensures
        match r {
            Some(k) => k < groups@.len() && froms(senders_view(groups@)).index_of_first(from@)
                == Some(k as int),
            None => froms(senders_view(groups@)).index_of_first(from@) is None,
        },
{
    let ghost fs = froms(senders_view(groups@));
    let mut j: usize = 0;
    while j < groups.len()
        invariant
            fs == froms(senders_view(groups@)),
            fs.len() == groups@.len(),
            0 <= j <= groups@.len(),
            forall|k: int| 0 <= k < j ==> fs[k] != from@,
        decreases groups@.len() - j,
    {
        if groups[j].from == *from {
            proof {
                lemma_index_of_first_at(fs, from@, j as int);
            }
            return Some(j);
        }
        j = j + 1;
    }
    proof {
        lemma_index_of_first_none(fs, from@);
    }
    None
}

/// A copy of an optional string.
fn copy_opt(o: &Option<String>) -> (r: Option<String>)
    ensures
        opt_view(r) == opt_view(*o),
{
    match o {
        Some(s) => Some(s.clone()),
        None => None,
    }
}

/// Groups the messages by sender, in the order of each sender's first message.
pub fn group_by_sender(messages: &[MessageUnsubInfo]) -> (r: Vec<SenderInfo>)
    requires
        messages@.len() <= u32::MAX,
    ensures
        senders_view(r@) == spec_group_by_sender(messages_view(messages@)),
{
    let ghost ms = messages_view(messages@);
    let mut groups: Vec<SenderInfo> = Vec::new();
    let mut i: usize = 0;
    assert(ms.take(0) =~= Seq::<MessageView>::empty());
    assert(senders_view(groups@) =~= Seq::<SenderView>::empty());
    while i < messages.len()
        invariant
            messages@.len() <= u32::MAX,
            ms == messages_view(messages@),
            0 <= i <= messages@.len(),
            senders_view(groups@) == spec_group_by_sender(ms.take(i as int)),
            forall|k: int| 0 <= k < groups@.len() ==> groups@[k].count <= i,
        decreases messages@.len() - i,
    {
        let m = &messages[i];
        assert(ms.take(i + 1).drop_last() =~= ms.take(i as int));
        assert(ms.take(i + 1).last() == m@);
        let ghost before = senders_view(groups@);
        match find_sender(&groups, &m.from) {
            Some(k) => {
                let count = groups[k].count + 1;
                let has = groups[k].has_rfc8058 || m.has_post_header;
                let url = if groups[k].unsubscribe_url.is_none() {
                    copy_opt(&m.https_url)
                } else {
                    copy_opt(&groups[k].unsubscribe_url)
                };
                let mailto = if groups[k].mailto.is_none() {
                    copy_opt(&m.mailto)
                } else {
                    copy_opt(&groups[k].mailto)
                };
                let from = groups[k].from.clone();
                let e = SenderInfo { from, count, has_rfc8058: has, unsubscribe_url: url, mailto };
                groups.set(k, e);
                assert(senders_view(groups@) =~= before.update(
                    k as int,
                    merge_message(before[k as int], m@),
                ));
            },
            None => {
                let e = SenderInfo {
                    from: m.from.clone(),
                    count: 1,
                    has_rfc8058: m.has_post_header,
                    unsubscribe_url: copy_opt(&m.https_url),
                    mailto: copy_opt(&m.mailto),
                };
                groups.push(e);
                assert(senders_view(groups@) =~= before.push(
                    merge_message(blank_sender(m@.from), m@),
                ));
            },
        }
        i = i + 1;
    }
    assert(ms.take(messages@.len() as int) =~= ms);
    groups
}

/// The place where a sender of `c` messages goes in `out`, which is ordered
/// by decreasing count.
fn find_insert_pos(out: &Vec<SenderInfo>, c: u32) -> (r: usize)
    ensures
        r as int == insert_pos(senders_view(out@), c as nat),
        r <= out@.len(),
{
    let ghost s = senders_view(out@);
    let ghost flags = s.map_values(|y: SenderView| y.count < c as nat);
    let mut j: usize = 0;
    while j < out.len()
        invariant
            s == senders_view(out@),
            flags == s.map_values(|y: SenderView| y.count < c as nat),
            0 <= j <= out@.len(),
            forall|k: int| 0 <= k < j ==> flags[k] != true,
        decreases out@.len() - j,
    {
        if out[j].count < c {
            proof {
                lemma_index_of_first_at(flags, true, j as int);
            }
            return j;
        }
        j = j + 1;
    }
    proof {
        lemma_index_of_first_none(flags, true);
    }
    j
}

/// Orders the senders by decreasing count; senders with equal counts keep
/// their order.
pub fn sort_senders_by_count(senders: Vec<SenderInfo>) -> (r: Vec<SenderInfo>)
    ensures
        senders_view(r@) == spec_sort_by_count(senders_view(senders@)),
{
    let ghost orig = senders_view(senders@);
    let mut rest = senders;
    let mut out: Vec<SenderInfo> = Vec::new();
    let ghost mut k: int = 0;
    assert(orig.skip(0) =~= orig);
    assert(orig.take(0) =~= Seq::<SenderView>::empty());
    assert(senders_view(out@) =~= Seq::<SenderView>::empty());
    while rest.len() > 0
        invariant
            0 <= k <= orig.len(),
            senders_view(rest@) == orig.skip(k),
            senders_view(out@) == spec_sort_by_count(orig.take(k)),
        decreases rest@.len(),
    {
        let ghost before = senders_view(out@);
        let ghost rest_before = senders_view(rest@);
        let x = rest.remove(0);
        assert(senders_view(rest@) =~= rest_before.drop_first());
        let pos = find_insert_pos(&out, x.count);
        out.insert(pos, x);
        proof {
            assert(orig.take(k + 1).drop_last() =~= orig.take(k));
            assert(orig.take(k + 1).last() == rest_before[0]);
            assert(senders_view(out@) =~= before.insert(pos as int, x@));
            assert(orig.skip(k).drop_first() =~= orig.skip(k + 1));
            k = k + 1;
        }
    }
    assert(orig.take(k) =~= orig);
    out
}

/// How a sender can be unsubscribed from, as the listing reports it.
#[derive(Clone, Copy, Debug, PartialEq, Eq, Structural)]
pub enum UnsubscribeMethod {
    /// RFC 8058 one-click POST.
    OneClickPost,
    /// Only a mail address.
    MailtoOnly,
    /// Only a link, which may need a browser.
    UrlOnly,
    /// Nothing usable.
    Unknown,
}

impl UnsubscribeMethod {
    /// The text that the listing shows for this method.
    pub fn label(&self) -> (r: &'static str)
        ensures
            r@ == match self {
                UnsubscribeMethod::OneClickPost => "RFC 8058 (one-click POST)"@,
                UnsubscribeMethod::MailtoOnly => "mailto only"@,
                UnsubscribeMethod::UrlOnly => "URL only (may need browser)"@,
                UnsubscribeMethod::Unknown => "unknown"@,
            },
    {
        match self {
            UnsubscribeMethod::OneClickPost => "RFC 8058 (one-click POST)",
            UnsubscribeMethod::MailtoOnly => "mailto only",
            UnsubscribeMethod::UrlOnly => "URL only (may need browser)",
            UnsubscribeMethod::Unknown => "unknown",
        }
    }
}

/// The method for a sender: one-click when any of its messages offers it,
/// else mail when an address is known, else a link when one is known.
pub open spec fn spec_method(s: SenderView) -> UnsubscribeMethod {
    if s.has_rfc8058 {
        UnsubscribeMethod::OneClickPost
    } else if s.mailto is Some {
        UnsubscribeMethod::MailtoOnly
    } else if s.unsubscribe_url is Some {
        UnsubscribeMethod::UrlOnly
    } else {
        UnsubscribeMethod::Unknown
    }
}

/// Each method is reported exactly when its condition holds: one-click when
/// the sender offers it; otherwise a mail address wins over a link, whether
/// or not a link is known; a link alone gives the link; nothing gives
/// "unknown". When an address is known, whether a link is known changes
/// nothing.
pub proof fn lemma_method_cases(s: SenderView)
    ensures
        spec_method(s) == UnsubscribeMethod::OneClickPost <==> s.has_rfc8058,
        spec_method(s) == UnsubscribeMethod::MailtoOnly <==> (!s.has_rfc8058 && s.mailto is Some),
        spec_method(s) == UnsubscribeMethod::UrlOnly <==> (!s.has_rfc8058 && s.mailto is None
            && s.unsubscribe_url is Some),
        spec_method(s) == UnsubscribeMethod::Unknown <==> (!s.has_rfc8058 && s.mailto is None
            && s.unsubscribe_url is None),
        s.mailto is Some ==> spec_method(s) == spec_method(
            SenderView { unsubscribe_url: None, ..s },
        ),
{
}

/// The unsubscribe method for a sender.
pub fn method_for(s: &SenderInfo) -> (r: UnsubscribeMethod)
    ensures
        r == spec_method(s@),
{
    if s.has_rfc8058 {
        UnsubscribeMethod::OneClickPost
    } else if s.mailto.is_some() {
        UnsubscribeMethod::MailtoOnly
    } else if s.unsubscribe_url.is_some() {
        UnsubscribeMethod::UrlOnly
    } else {
        UnsubscribeMethod::Unknown
    }
}

/// One line of the listing.
pub struct Candidate {
    pub from: String,
    pub count: u32,
    pub method: UnsubscribeMethod,
    pub rfc8058: bool,
}

/// The listing of senders that can be unsubscribed from.
pub struct CandidateReport {
    pub candidates: Vec<Candidate>,
    pub total_senders: usize,
    pub total_messages: usize,
}

/// The line `c` describes the sender `s`.
pub open spec fn candidate_of(c: Candidate, s: SenderView) -> bool {
    &&& c.from@ == s.from
    &&& c.count as nat == s.count
    &&& c.method == spec_method(s)
    &&& c.rfc8058 == s.has_rfc8058
}

/// The senders of `ms`, most messages first.
pub open spec fn spec_ranked_senders(ms: Seq<MessageView>) -> Seq<SenderView> {
    spec_sort_by_count(spec_group_by_sender(ms))
}

/// The listing for the scanned messages: none when there are no messages;
/// otherwise one line per sender, most messages first.
pub fn candidate_report(messages: &[MessageUnsubInfo]) -> (r: Option<CandidateReport>)
    requires
        messages@.len() <= u32::MAX,
    ensures
        r is None <==> messages@.len() == 0,
        r matches Some(rep) ==> {
            let ranked = spec_ranked_senders(messages_view(messages@));
            &&& rep.total_messages == messages@.len()
            &&& rep.total_senders == rep.candidates@.len()
            &&& rep.candidates@.len() == ranked.len()
            &&& forall|k: int|
                0 <= k < ranked.len() ==> #[trigger] candidate_of(rep.candidates@[k], ranked[k])
            &&& forall|i: int, j: int|
                0 <= i < j < rep.candidates@.len() ==> rep.candidates@[i].count
                    >= rep.candidates@[j].count
        },
{
    if messages.len() == 0 {
        return None;
    }
    let senders = sort_senders_by_count(group_by_sender(messages));
    let ghost ranked = senders_view(senders@);
    proof {
        lemma_sort_by_count(spec_group_by_sender(messages_view(messages@)));
    }
    let mut candidates: Vec<Candidate> = Vec::new();
    let mut k: usize = 0;
    while k < senders.len()
        invariant
            ranked == senders_view(senders@),
            0 <= k <= senders@.len(),
            candidates@.len() == k,
            forall|t: int| 0 <= t < k ==> #[trigger] candidate_of(candidates@[t], ranked[t]),
        decreases senders@.len() - k,
    {
        let s = &senders[k];
        let c = Candidate {
            from: s.from.clone(),
            count: s.count,
            method: method_for(s),
            rfc8058: s.has_rfc8058,
        };
        candidates.push(c);
        k = k + 1;
    }
    let total_senders = candidates.len();
    proof {
        assert forall|i: int, j: int| 0 <= i < j < candidates@.len() implies candidates@[i].count
            >= candidates@[j].count by {
            assert(candidate_of(candidates@[i], ranked[i]));
            assert(candidate_of(candidates@[j], ranked[j]));
        }
    }
    Some(CandidateReport { candidates, total_senders, total_messages: messages.len() })
}

} // verus!
