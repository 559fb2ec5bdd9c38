//! Choosing how to unsubscribe from one sender, and the report of a
//! one-click POST.
use vstd::prelude::*;
use vstd::string::StringSliceAdditionalSpecFns;
use vstd::utf8::encode_utf8;
use crate::list_unsubscribe::{https_scheme, opt_view, MessageUnsubInfo, MessageView};
use crate::senders::messages_view;
use crate::text::{chars_of, contains_chars, contains_seq, has_prefix};
use crate::text::lemma_index_of_first_at;
use crate::text::lemma_index_of_first_none;

verus! {

/// The result of `str::to_lowercase`: Unicode's lowercase mapping of each
/// character, which depends on the text alone.
pub uninterp spec fn lowercase(s: Seq<char>) -> Seq<char>;

/// Calls std's `str::to_lowercase`. The contract only names the result: it
/// is `lowercase` of the argument; what that mapping is, is left unsaid.
#[verifier::external_body]
fn to_lowercase(s: &str) -> (r: String)
    ensures
        r@ == lowercase(s@),
{
    s.to_lowercase()
}

/// Whether a message from `from` matches the sender filter `sender`: the
/// lowercased filter occurs in the lowercased address.
pub open spec fn spec_sender_matches(from: Seq<char>, sender: Seq<char>) -> bool {
    contains_seq(lowercase(from), lowercase(sender))
}

/// Whether a message from `from` matches the sender filter `sender`,
/// ignoring case.
pub fn sender_matches(from: &str, sender: &str) -> (r: bool)
    ensures
        r == spec_sender_matches(from@, sender@),
{
    let f = to_lowercase(from);
    let s = to_lowercase(sender);
    contains_chars(&chars_of(f.as_str()), &chars_of(s.as_str()))
}

/// A sender filter that is a message's whole `From` value matches it.
pub proof fn lemma_sender_matches_itself(from: Seq<char>)
    ensures
        spec_sender_matches(from, from),
{
    let l = lowercase(from);
    assert(l.subrange(0int, 0int + l.len()) =~= l);
    assert(contains_seq(l, l));
}

/// What to do for an unsubscribe request.
pub enum UnsubscribePlan {
    /// No message from the sender carries a `List-Unsubscribe` header.
    NoMatchingSender,
    /// No one-click link, but a mail address to write to.
    MailtoFallback { mailto: String },
    /// Neither a link nor an address.
    NoUsableMechanism,
    /// Show what the POST would be.
    DryRun { from: String, url: String, message_id: String, one_click: bool },
    /// The chosen link is not HTTPS and is not posted to.
    RefuseNonHttps { url: String, one_click: bool },
    /// POST `List-Unsubscribe=One-Click` to the link.
    Post { from: String, url: String, one_click: bool },
}

/// The view of an `UnsubscribePlan`.
pub enum PlanView {
    NoMatchingSender,
    MailtoFallback { mailto: Seq<char> },
    NoUsableMechanism,
    DryRun { from: Seq<char>, url: Seq<char>, message_id: Seq<char>, one_click: bool },
    RefuseNonHttps { url: Seq<char>, one_click: bool },
    Post { from: Seq<char>, url: Seq<char>, one_click: bool },
}

impl View for UnsubscribePlan {
    type V = PlanView;

    open spec fn view(&self) -> PlanView {
        match self {
            UnsubscribePlan::NoMatchingSender => PlanView::NoMatchingSender,
            UnsubscribePlan::MailtoFallback { mailto } => PlanView::MailtoFallback {
                mailto: mailto@,
            },
            UnsubscribePlan::NoUsableMechanism => PlanView::NoUsableMechanism,
            UnsubscribePlan::DryRun { from, url, message_id, one_click } => PlanView::DryRun {
                from: from@,
                url: url@,
                message_id: message_id@,
                one_click: *one_click,
            },
            UnsubscribePlan::RefuseNonHttps { url, one_click } => PlanView::RefuseNonHttps {
                url: url@,
                one_click: *one_click,
            },
            UnsubscribePlan::Post { from, url, one_click } => PlanView::Post {
                from: from@,
                url: url@,
                one_click: *one_click,
            },
        }
    }
}

/// A property of a message that the choice looks for.
pub enum Wanted {
    /// Any message.
    Any,
    /// A link and the one-click header.
    OneClickLink,
    /// A link.
    Link,
    /// A mail address.
    Mail,
}

/// Whether the message `m` has the property `w`.
pub open spec fn spec_has(m: MessageView, w: Wanted) -> bool {
    match w {
        Wanted::Any => true,
        Wanted::OneClickLink => m.has_post_header && m.https_url is Some,
        Wanted::Link => m.https_url is Some,
        Wanted::Mail => m.mailto is Some,
    }
}

/// The first message that matches (`mask`) and has the property `w`.
pub open spec fn first_where(ms: Seq<MessageView>, mask: Seq<bool>, w: Wanted) -> Option<int> {
    Seq::new(ms.len(), |k: int| mask[k] && spec_has(ms[k], w)).index_of_first(true)
}

/// The plan for the link of the message `m`: show it on a dry run, else POST
/// to it when it is HTTPS and refuse it otherwise.
pub open spec fn link_plan(m: MessageView, dry_run: bool) -> PlanView {
    let url = m.https_url.unwrap();
    if dry_run {
        PlanView::DryRun {
            from: m.from,
            url,
            message_id: m.message_id,
            one_click: m.has_post_header,
        }
    } else if https_scheme().is_prefix_of(url) {
        PlanView::Post { from: m.from, url, one_click: m.has_post_header }
    } else {
        PlanView::RefuseNonHttps { url, one_click: m.has_post_header }
    }
}

/// The plan for the messages `ms`, of which `mask` marks those from the
/// sender: prefer a one-click (RFC 8058) link; without one, fall back to a
/// mail address; only a sender with neither gets its plain link used.
pub open spec fn spec_plan(ms: Seq<MessageView>, mask: Seq<bool>, dry_run: bool) -> PlanView {
    if first_where(ms, mask, Wanted::Any) is None {
        PlanView::NoMatchingSender
    } else {
        match first_where(ms, mask, Wanted::OneClickLink) {
            Some(i) => link_plan(ms[i], dry_run),
            None => match first_where(ms, mask, Wanted::Mail) {
                Some(i) => PlanView::MailtoFallback { mailto: ms[i].mailto.unwrap() },
                None => match first_where(ms, mask, Wanted::Link) {
                    Some(i) => link_plan(ms[i], dry_run),
                    None => PlanView::NoUsableMechanism,
                },
            },
        }
    }
}

/// Which messages of `ms` come from a sender matching `sender`.
pub open spec fn match_mask(ms: Seq<MessageView>, sender: Seq<char>) -> Seq<bool> {
    Seq::new(ms.len(), |k: int| spec_sender_matches(ms[k].from, sender))
}

/// Whether the message `m` has the property `w`.
fn has(m: &MessageUnsubInfo, w: &Wanted) -> (r: bool)
    ensures
        r == spec_has(m@, *w),
{
    match w {
        Wanted::Any => true,
        Wanted::OneClickLink => m.has_post_header && m.https_url.is_some(),
        Wanted::Link => m.https_url.is_some(),
        Wanted::Mail => m.mailto.is_some(),
    }
}

/// The position of the first message that matches and has the property `w`.
fn find_first(messages: &[MessageUnsubInfo], is_match: &[bool], w: Wanted) -> (r: Option<usize>)
    requires
        is_match@.len() == messages@.len(),
    ensures
        match r {
            Some(i) => i < messages@.len() && first_where(
                messages_view(messages@),
                is_match@,
                w,
            ) == Some(i as int) && is_match@[i as int] && spec_has(messages@[i as int]@, w),
            None => first_where(messages_view(messages@), is_match@, w) is None,
        },
{
    let ghost ms = messages_view(messages@);
    let ghost flags = Seq::new(ms.len(), |k: int| is_match@[k] && spec_has(ms[k], w));
    let mut i: usize = 0;
    while i < messages.len()
        invariant
            is_match@.len() == messages@.len(),
            ms == messages_view(messages@),
            flags == Seq::new(ms.len(), |k: int| is_match@[k] && spec_has(ms[k], w)),
            0 <= i <= messages@.len(),
            forall|k: int| 0 <= k < i ==> flags[k] != true,
        decreases messages@.len() - i,
    {
        if is_match[i] && has(&messages[i], &w) {
            proof {
                lemma_index_of_first_at(flags, true, i as int);
            }
            return Some(i);
        }
        i = i + 1;
    }
    proof {
        lemma_index_of_first_none(flags, true);
    }
    None
}

/// The plan for the link of the message `m`, which has one.
fn plan_for_link(m: &MessageUnsubInfo, dry_run: bool) -> (r: UnsubscribePlan)
    requires
        m@.https_url is Some,
    ensures
        r@ == link_plan(m@, dry_run),
{
    let url = match &m.https_url {
        Some(u) => u.clone(),
        None => String::new(),
    };
    if dry_run {
        UnsubscribePlan::DryRun {
            from: m.from.clone(),
            url,
            message_id: m.message_id.clone(),
            one_click: m.has_post_header,
        }
    } else {
        let scheme = chars_of("https://");
        let url_chars = chars_of(url.as_str());
        let https = has_prefix(&url_chars, 0, url_chars.len(), &scheme);
        assert(url_chars@.subrange(0, url_chars@.len() as int) =~= url_chars@);
        if https {
            UnsubscribePlan::Post { from: m.from.clone(), url, one_click: m.has_post_header }
        } else {
            UnsubscribePlan::RefuseNonHttps { url, one_click: m.has_post_header }
        }
    }
}

/// Chooses what to do, given which messages come from the sender.
pub fn plan_from_matches(messages: &[MessageUnsubInfo], is_match: &[bool], dry_run: bool) -> (r:
    UnsubscribePlan)
    requires
        is_match@.len() == messages@.len(),
    ensures
        r@ == spec_plan(messages_view(messages@), is_match@, dry_run),
{
    let ghost ms = messages_view(messages@);
    if find_first(messages, is_match, Wanted::Any).is_none() {
        return UnsubscribePlan::NoMatchingSender;
    }
    if let Some(i) = find_first(messages, is_match, Wanted::OneClickLink) {
        assert(ms[i as int] == messages[i as int]@);
        return plan_for_link(&messages[i], dry_run);
    }
    if let Some(i) = find_first(messages, is_match, Wanted::Mail) {
        assert(ms[i as int] == messages[i as int]@);
        let mailto = match &messages[i].mailto {
            Some(a) => a.clone(),
            None => String::new(),
        };
        return UnsubscribePlan::MailtoFallback { mailto };
    }
    match find_first(messages, is_match, Wanted::Link) {
        Some(i) => {
            assert(ms[i as int] == messages[i as int]@);
            plan_for_link(&messages[i], dry_run)
        },
        None => UnsubscribePlan::NoUsableMechanism,
    }
}

/// Chooses what to do to unsubscribe from `sender`: the messages whose
/// `From` contains it, ignoring case, are the sender's.
pub fn plan_unsubscribe(messages: &[MessageUnsubInfo], sender: &str, dry_run: bool) -> (r:
    UnsubscribePlan)
    ensures
        r@ == spec_plan(
            messages_view(messages@),
            match_mask(messages_view(messages@), sender@),
            dry_run,
        ),
{
    let ghost ms = messages_view(messages@);
    let mut is_match: Vec<bool> = Vec::new();
    let mut i: usize = 0;
    while i < messages.len()
        invariant
            ms == messages_view(messages@),
            0 <= i <= messages@.len(),
            is_match@.len() == i,
            forall|k: int| 0 <= k < i ==> is_match@[k] == spec_sender_matches(ms[k].from, sender@),
        decreases messages@.len() - i,
    {
        let b = sender_matches(messages[i].from.as_str(), sender);
        is_match.push(b);
        i = i + 1;
    }
    assert(is_match@ =~= match_mask(ms, sender@));
    plan_from_matches(messages, is_match.as_slice(), dry_run)
}

/// Links that all start with `https://` are never refused: a plan for such
/// messages is never `RefuseNonHttps`.
pub proof fn lemma_https_links_never_refused(ms: Seq<MessageView>, mask: Seq<bool>, dry_run: bool)
    requires
        forall|k: int|
            0 <= k < ms.len() ==> (#[trigger] ms[k].https_url matches Some(u)
                ==> https_scheme().is_prefix_of(u)),
    ensures
        !(spec_plan(ms, mask, dry_run) is RefuseNonHttps),
{
    let fa = Seq::new(ms.len(), |k: int| mask[k] && spec_has(ms[k], Wanted::OneClickLink));
    let fb = Seq::new(ms.len(), |k: int| mask[k] && spec_has(ms[k], Wanted::Link));
    fa.index_of_first_ensures(true);
    fb.index_of_first_ensures(true);
    if let Some(i) = first_where(ms, mask, Wanted::OneClickLink) {
        assert(fa[i]);
        assert(ms[i].https_url is Some);
    } else if first_where(ms, mask, Wanted::Mail) is None {
        if let Some(i) = first_where(ms, mask, Wanted::Link) {
            assert(fb[i]);
            assert(ms[i].https_url is Some);
        }
    }
}

/// When a message from the sender offers a one-click (RFC 8058) link, the
/// plan uses a one-click link: a dry run, a POST or a refusal of it, never
/// the mail fallback.
pub proof fn lemma_one_click_preferred(ms: Seq<MessageView>, mask: Seq<bool>, dry_run: bool, j: int)
    requires
        0 <= j < ms.len(),
        mask[j],
        ms[j].has_post_header,
        ms[j].https_url is Some,
    ensures
        ({
            ||| (spec_plan(ms, mask, dry_run) matches PlanView::DryRun { one_click, .. }
                && one_click)
            ||| (spec_plan(ms, mask, dry_run) matches PlanView::Post { one_click, .. } && one_click)
            ||| (spec_plan(ms, mask, dry_run) matches PlanView::RefuseNonHttps { one_click, .. }
                && one_click)
        }),
{
    let fany = Seq::new(ms.len(), |k: int| mask[k] && spec_has(ms[k], Wanted::Any));
    let fa = Seq::new(ms.len(), |k: int| mask[k] && spec_has(ms[k], Wanted::OneClickLink));
    assert(fany[j]);
    assert(fa[j]);
    fany.index_of_first_ensures(true);
    fa.index_of_first_ensures(true);
    let i = first_where(ms, mask, Wanted::OneClickLink).unwrap();
    assert(fa[i]);
}

/// When no message from the sender offers a one-click link but one gives a
/// mail address, the plan is to show the first such address.
pub proof fn lemma_mail_fallback_without_one_click(
    ms: Seq<MessageView>,
    mask: Seq<bool>,
    dry_run: bool,
    j: int,
)
    requires
        0 <= j < ms.len(),
        mask[j],
        ms[j].mailto is Some,
        forall|k: int|
            0 <= k < ms.len() && #[trigger] mask[k] ==> !(ms[k].has_post_header
                && ms[k].https_url is Some),
    ensures
        spec_plan(ms, mask, dry_run) matches PlanView::MailtoFallback { mailto } && exists|i: int|
            0 <= i <= j && mask[i] && #[trigger] ms[i].mailto == Some(mailto) && forall|k: int|
                0 <= k < i && #[trigger] mask[k] ==> ms[k].mailto is None,
{
    let fany = Seq::new(ms.len(), |k: int| mask[k] && spec_has(ms[k], Wanted::Any));
    let fa = Seq::new(ms.len(), |k: int| mask[k] && spec_has(ms[k], Wanted::OneClickLink));
    let fm = Seq::new(ms.len(), |k: int| mask[k] && spec_has(ms[k], Wanted::Mail));
    assert(fany[j]);
    assert(fm[j]);
    fany.index_of_first_ensures(true);
    fm.index_of_first_ensures(true);
    fa.index_of_first_ensures(true);
    assert(!fa.contains(true));
    let i = first_where(ms, mask, Wanted::Mail).unwrap();
    assert(fm[i]);
    assert forall|k: int| 0 <= k < i && #[trigger] mask[k] implies ms[k].mailto is None by {
        assert(!fm[k]);
    }
}

/// A dry run sends nothing: it never posts and never refuses a link, but
/// shows the very link that the real run would post to or refuse; a real run
/// never answers with a dry run; and whatever uses no link is the same in
/// both runs.
pub proof fn lemma_dry_run_mirrors_real_run(ms: Seq<MessageView>, mask: Seq<bool>)
    ensures
        !(spec_plan(ms, mask, true) is Post),
        !(spec_plan(ms, mask, true) is RefuseNonHttps),
        !(spec_plan(ms, mask, false) is DryRun),
        spec_plan(ms, mask, false) matches PlanView::Post { from, url, one_click } ==> (
        spec_plan(ms, mask, true) matches PlanView::DryRun { from: f2, url: u2, one_click: o2, .. }
            && f2 == from && u2 == url && o2 == one_click),
        spec_plan(ms, mask, false) matches PlanView::RefuseNonHttps { url, one_click } ==> (
        spec_plan(ms, mask, true) matches PlanView::DryRun { url: u2, one_click: o2, .. } && u2
            == url && o2 == one_click),
        spec_plan(ms, mask, true) matches PlanView::DryRun { url, one_click, .. } ==> ({
            ||| (spec_plan(ms, mask, false) matches PlanView::Post { url: u2, one_click: o2, .. }
                && u2 == url && o2 == one_click)
            ||| (spec_plan(ms, mask, false) matches PlanView::RefuseNonHttps {
                url: u2,
                one_click: o2,
            } && u2 == url && o2 == one_click)
        }),
        !(spec_plan(ms, mask, true) is DryRun) ==> spec_plan(ms, mask, true) == spec_plan(
            ms,
            mask,
            false,
        ),
{
}

/// What `first_where` finds: a matching message with the property, before
/// which no matching message has it; or, when it finds none, there is none.
proof fn lemma_first_where(ms: Seq<MessageView>, mask: Seq<bool>, w: Wanted)
    ensures
        first_where(ms, mask, w) matches Some(i) ==> 0 <= i < ms.len() && mask[i] && spec_has(
            ms[i],
            w,
        ),
        first_where(ms, mask, w) is None ==> forall|k: int|
            0 <= k < ms.len() && #[trigger] mask[k] ==> !spec_has(ms[k], w),
{
    let flags = Seq::new(ms.len(), |k: int| mask[k] && spec_has(ms[k], w));
    flags.index_of_first_ensures(true);
    if first_where(ms, mask, w) is None {
        assert forall|k: int| 0 <= k < ms.len() && #[trigger] mask[k] implies !spec_has(ms[k], w) by {
            assert(flags[k] != true);
        }
    }
}

/// Every plan comes from the sender's own messages: "no matching sender"
/// exactly when no message is the sender's; a link or an address in the
/// plan is that of one of the sender's messages, with its `From`, message id
/// and one-click flag; and "no usable mechanism" exactly when the sender has
/// messages but none carries a link or an address.
pub proof fn lemma_plan_uses_sender_message(ms: Seq<MessageView>, mask: Seq<bool>, dry_run: bool)
    ensures
        spec_plan(ms, mask, dry_run) is NoMatchingSender <==> forall|k: int|
            0 <= k < ms.len() ==> !#[trigger] mask[k],
        spec_plan(ms, mask, dry_run) is NoUsableMechanism <==> ((exists|k: int|
            0 <= k < ms.len() && #[trigger] mask[k]) && forall|k: int|
            0 <= k < ms.len() && #[trigger] mask[k] ==> ms[k].https_url is None && ms[k].mailto is None),
        spec_plan(ms, mask, dry_run) matches PlanView::MailtoFallback { mailto } ==> exists|k: int|
            0 <= k < ms.len() && #[trigger] mask[k] && ms[k].mailto == Some(mailto),
        spec_plan(ms, mask, dry_run) matches PlanView::Post { from, url, one_click } ==> exists|k: int|
            0 <= k < ms.len() && #[trigger] mask[k] && ms[k].from == from && ms[k].https_url == Some(
                url,
            ) && ms[k].has_post_header == one_click,
        spec_plan(ms, mask, dry_run) matches PlanView::RefuseNonHttps { url, one_click } ==> exists|
            k: int,
        |
            0 <= k < ms.len() && #[trigger] mask[k] && ms[k].https_url == Some(url)
                && ms[k].has_post_header == one_click,
        spec_plan(ms, mask, dry_run) matches PlanView::DryRun { from, url, message_id, one_click }
            ==> exists|k: int|
            0 <= k < ms.len() && #[trigger] mask[k] && ms[k].from == from && ms[k].https_url == Some(
                url,
            ) && ms[k].message_id == message_id && ms[k].has_post_header == one_click,
{
    lemma_first_where(ms, mask, Wanted::Any);
    lemma_first_where(ms, mask, Wanted::OneClickLink);
    lemma_first_where(ms, mask, Wanted::Mail);
    lemma_first_where(ms, mask, Wanted::Link);
    let p = spec_plan(ms, mask, dry_run);
    if let Some(i) = first_where(ms, mask, Wanted::Any) {
        assert(mask[i]);
    }
    let chosen: Option<int> = match first_where(ms, mask, Wanted::OneClickLink) {
        Some(i) => Some(i),
        None => match first_where(ms, mask, Wanted::Mail) {
            Some(i) => Some(i),
            None => first_where(ms, mask, Wanted::Link),
        },
    };
    if let Some(i) = chosen {
        assert(mask[i]);
    }
    if p is NoUsableMechanism {
        assert forall|k: int| 0 <= k < ms.len() && #[trigger] mask[k] implies ms[k].https_url is None
            && ms[k].mailto is None by {
            assert(!spec_has(ms[k], Wanted::Link));
            assert(!spec_has(ms[k], Wanted::Mail));
        }
    }
    if (exists|k: int| 0 <= k < ms.len() && #[trigger] mask[k]) && forall|k: int|
        0 <= k < ms.len() && #[trigger] mask[k] ==> ms[k].https_url is None && ms[k].mailto is None {
        let k = choose|k: int| 0 <= k < ms.len() && #[trigger] mask[k];
        assert(spec_has(ms[k], Wanted::Any));
    }
}

/// A plan only ever posts to an HTTPS link.
pub proof fn lemma_post_only_to_https(ms: Seq<MessageView>, mask: Seq<bool>, dry_run: bool)
    ensures
        spec_plan(ms, mask, dry_run) matches PlanView::Post { url, .. } ==> https_scheme().is_prefix_of(
            url,
        ),
{
}

/// The method that the dry run reports: RFC 8058 when the sender offers
/// one-click, plain HTTPS otherwise.
pub fn dry_run_method(one_click: bool) -> (r: &'static str)
    ensures
        r@ == (if one_click {
            "RFC 8058"@
        } else {
            "HTTPS (no Post header)"@
        }),
{
    if one_click {
        "RFC 8058"
    } else {
        "HTTPS (no Post header)"
    }
}

/// What a one-click POST came back with.
pub struct PostReport {
    pub from: String,
    pub url: String,
    pub status: u16,
    pub success: bool,
    pub response: String,
}

/// The report of a POST to `url` for the sender `from` that answered with
/// `status` and `body`: success means a 2xx status, and the body is cut to
/// its first 500 bytes.
pub fn post_report(from: &str, url: &str, status: u16, body: &str) -> (r: PostReport)
    requires
        body.len() <= 500 || body.is_char_boundary(500),
    ensures
        r.from@ == from@,
        r.url@ == url@,
        r.status == status,
        r.success == (200 <= status && status < 300),
        encode_utf8(r.response@) == (if body.len() > 500 {
            body.spec_bytes().take(500)
        } else {
            body.spec_bytes()
        }),
{
    let response = if body.len() > 500 {
        let (head, _) = body.split_at(500);
        String::from_str(head)
    } else {
        String::from_str(body)
    };
    PostReport {
        from: String::from_str(from),
        url: String::from_str(url),
        status,
        success: 200 <= status && status < 300,
        response,
    }
}

} // verus!
