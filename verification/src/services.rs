//! The known Google Workspace services and the resolution of a service alias
//! to its API name and version.
use vstd::prelude::*;
use crate::error::GwsError;
use crate::text::{chars_equal, chars_of};
use crate::text::lemma_index_of_first_at;
use crate::text::lemma_index_of_first_none;

verus! {

/// A known service with its aliases, API name, version, and description.
pub struct ServiceEntry {
    pub aliases: &'static [&'static str],
    pub api_name: &'static str,
    pub version: &'static str,
    pub description: &'static str,
}

/// The view of a `ServiceEntry`.
pub struct ServiceView {
    pub aliases: Seq<Seq<char>>,
    pub api_name: Seq<char>,
    pub version: Seq<char>,
    pub description: Seq<char>,
}

impl View for ServiceEntry {
    type V = ServiceView;

    open spec fn view(&self) -> ServiceView {
        ServiceView {
            aliases: self.aliases@.map_values(|a: &str| a@),
            api_name: self.api_name@,
            version: self.version@,
            description: self.description@,
        }
    }
}

/// A `ServiceView` from its parts.
pub open spec fn service_view(
    aliases: Seq<Seq<char>>,
    api_name: Seq<char>,
    version: Seq<char>,
    description: Seq<char>,
) -> ServiceView {
    ServiceView { aliases, api_name, version, description }
}

/// All known services, in the order in which they are looked up.
pub open spec fn service_table() -> Seq<ServiceView> {
    seq![
        service_view(seq!["drive"@], "drive"@, "v3"@, "Manage files, folders, and shared drives"@),
        service_view(seq!["sheets"@], "sheets"@, "v4"@, "Read and write spreadsheets"@),
        service_view(seq!["gmail"@], "gmail"@, "v1"@, "Send, read, and manage email"@),
        service_view(seq!["calendar"@], "calendar"@, "v3"@, "Manage calendars and events"@),
        service_view(seq!["admin"@, "directory"@], "admin"@, "directory_v1"@, "Manage users, groups, and devices"@),
        service_view(seq!["admin-reports"@, "reports"@], "admin"@, "reports_v1"@, "Audit logs and usage reports"@),
        service_view(seq!["docs"@], "docs"@, "v1"@, "Read and write Google Docs"@),
        service_view(seq!["slides"@], "slides"@, "v1"@, "Read and write presentations"@),
        service_view(seq!["tasks"@], "tasks"@, "v1"@, "Manage task lists and tasks"@),
        service_view(seq!["people"@], "people"@, "v1"@, "Manage contacts and profiles"@),
        service_view(seq!["chat"@], "chat"@, "v1"@, "Manage Chat spaces and messages"@),
        service_view(seq!["vault"@], "vault"@, "v1"@, "Manage eDiscovery holds and exports"@),
        service_view(seq!["groupssettings"@], "groupssettings"@, "v1"@, "Manage Google Groups settings"@),
        service_view(seq!["reseller"@], "reseller"@, "v1"@, "Manage Workspace subscriptions"@),
        service_view(seq!["licensing"@], "licensing"@, "v1"@, "Manage product licenses"@),
        service_view(seq!["apps-script"@, "script"@], "script"@, "v1"@, "Manage and execute Apps Script projects"@),
        service_view(seq!["classroom"@], "classroom"@, "v1"@, "Manage classes, rosters, and coursework"@),
        service_view(seq!["cloudidentity"@], "cloudidentity"@, "v1"@, "Manage identity groups and memberships"@),
        service_view(seq!["alertcenter"@], "alertcenter"@, "v1beta1"@, "Manage Workspace security alerts"@),
        service_view(seq!["forms"@], "forms"@, "v1"@, "Read and write Google Forms"@),
        service_view(seq!["keep"@], "keep"@, "v1"@, "Manage Google Keep notes"@),
        service_view(seq!["meet"@], "meet"@, "v2"@, "Manage Google Meet conferences"@),
        service_view(seq!["events"@], "workspaceevents"@, "v1"@, "Subscribe to Google Workspace events"@),
        service_view(seq!["modelarmor"@], "modelarmor"@, "v1"@, "Filter user-generated content for safety"@),
        service_view(seq!["workflow"@, "wf"@], "workflow"@, "v1"@, "Cross-service productivity workflows"@),
    ]
}

/// The views of a list of services.
pub open spec fn services_view(s: Seq<ServiceEntry>) -> Seq<ServiceView> {
    s.map_values(|e: ServiceEntry| e@)
}

/// All known services with their metadata.
pub fn services() -> (r: Vec<ServiceEntry>)
    ensures
        services_view(r@) == service_table(),
{
    let r = vec![
        ServiceEntry {
            aliases: &["drive"],
            api_name: "drive",
            version: "v3",
            description: "Manage files, folders, and shared drives",
        },
        ServiceEntry {
            aliases: &["sheets"],
            api_name: "sheets",
            version: "v4",
            description: "Read and write spreadsheets",
        },
        ServiceEntry {
            aliases: &["gmail"],
            api_name: "gmail",
            version: "v1",
            description: "Send, read, and manage email",
        },
        ServiceEntry {
            aliases: &["calendar"],
            api_name: "calendar",
            version: "v3",
            description: "Manage calendars and events",
        },
        ServiceEntry {
            aliases: &["admin", "directory"],
            api_name: "admin",
            version: "directory_v1",
            description: "Manage users, groups, and devices",
        },
        ServiceEntry {
            aliases: &["admin-reports", "reports"],
            api_name: "admin",
            version: "reports_v1",
            description: "Audit logs and usage reports",
        },
        ServiceEntry {
            aliases: &["docs"],
            api_name: "docs",
            version: "v1",
            description: "Read and write Google Docs",
        },
        ServiceEntry {
            aliases: &["slides"],
            api_name: "slides",
            version: "v1",
            description: "Read and write presentations",
        },
        ServiceEntry {
            aliases: &["tasks"],
            api_name: "tasks",
            version: "v1",
            description: "Manage task lists and tasks",
        },
        ServiceEntry {
            aliases: &["people"],
            api_name: "people",
            version: "v1",
            description: "Manage contacts and profiles",
        },
        ServiceEntry {
            aliases: &["chat"],
            api_name: "chat",
            version: "v1",
            description: "Manage Chat spaces and messages",
        },
        ServiceEntry {
            aliases: &["vault"],
            api_name: "vault",
            version: "v1",
            description: "Manage eDiscovery holds and exports",
        },
        ServiceEntry {
            aliases: &["groupssettings"],
            api_name: "groupssettings",
            version: "v1",
            description: "Manage Google Groups settings",
        },
        ServiceEntry {
            aliases: &["reseller"],
            api_name: "reseller",
            version: "v1",
            description: "Manage Workspace subscriptions",
        },
        ServiceEntry {
            aliases: &["licensing"],
            api_name: "licensing",
            version: "v1",
            description: "Manage product licenses",
        },
        ServiceEntry {
            aliases: &["apps-script", "script"],
            api_name: "script",
            version: "v1",
            description: "Manage and execute Apps Script projects",
        },
        ServiceEntry {
            aliases: &["classroom"],
            api_name: "classroom",
            version: "v1",
            description: "Manage classes, rosters, and coursework",
        },
        ServiceEntry {
            aliases: &["cloudidentity"],
            api_name: "cloudidentity",
            version: "v1",
            description: "Manage identity groups and memberships",
        },
        ServiceEntry {
            aliases: &["alertcenter"],
            api_name: "alertcenter",
            version: "v1beta1",
            description: "Manage Workspace security alerts",
        },
        ServiceEntry {
            aliases: &["forms"],
            api_name: "forms",
            version: "v1",
            description: "Read and write Google Forms",
        },
        ServiceEntry {
            aliases: &["keep"],
            api_name: "keep",
            version: "v1",
            description: "Manage Google Keep notes",
        },
        ServiceEntry {
            aliases: &["meet"],
            api_name: "meet",
            version: "v2",
            description: "Manage Google Meet conferences",
        },
        ServiceEntry {
            aliases: &["events"],
            api_name: "workspaceevents",
            version: "v1",
            description: "Subscribe to Google Workspace events",
        },
        ServiceEntry {
            aliases: &["modelarmor"],
            api_name: "modelarmor",
            version: "v1",
            description: "Filter user-generated content for safety",
        },
        ServiceEntry {
            aliases: &["workflow", "wf"],
            api_name: "workflow",
            version: "v1",
            description: "Cross-service productivity workflows",
        },
    ];
    assert(r@[0].aliases@.map_values(|a: &str| a@) =~= seq!["drive"@]);
    assert(r@[0]@ == service_table()[0]);
    assert(r@[1].aliases@.map_values(|a: &str| a@) =~= seq!["sheets"@]);
    assert(r@[1]@ == service_table()[1]);
    assert(r@[2].aliases@.map_values(|a: &str| a@) =~= seq!["gmail"@]);
    assert(r@[2]@ == service_table()[2]);
    assert(r@[3].aliases@.map_values(|a: &str| a@) =~= seq!["calendar"@]);
    assert(r@[3]@ == service_table()[3]);
    assert(r@[4].aliases@.map_values(|a: &str| a@) =~= seq!["admin"@, "directory"@]);
    assert(r@[4]@ == service_table()[4]);
    assert(r@[5].aliases@.map_values(|a: &str| a@) =~= seq!["admin-reports"@, "reports"@]);
    assert(r@[5]@ == service_table()[5]);
    assert(r@[6].aliases@.map_values(|a: &str| a@) =~= seq!["docs"@]);
    assert(r@[6]@ == service_table()[6]);
    assert(r@[7].aliases@.map_values(|a: &str| a@) =~= seq!["slides"@]);
    assert(r@[7]@ == service_table()[7]);
    assert(r@[8].aliases@.map_values(|a: &str| a@) =~= seq!["tasks"@]);
    assert(r@[8]@ == service_table()[8]);
    assert(r@[9].aliases@.map_values(|a: &str| a@) =~= seq!["people"@]);
    assert(r@[9]@ == service_table()[9]);
    assert(r@[10].aliases@.map_values(|a: &str| a@) =~= seq!["chat"@]);
    assert(r@[10]@ == service_table()[10]);
    assert(r@[11].aliases@.map_values(|a: &str| a@) =~= seq!["vault"@]);
    assert(r@[11]@ == service_table()[11]);
    assert(r@[12].aliases@.map_values(|a: &str| a@) =~= seq!["groupssettings"@]);
    assert(r@[12]@ == service_table()[12]);
    assert(r@[13].aliases@.map_values(|a: &str| a@) =~= seq!["reseller"@]);
    assert(r@[13]@ == service_table()[13]);
    assert(r@[14].aliases@.map_values(|a: &str| a@) =~= seq!["licensing"@]);
    assert(r@[14]@ == service_table()[14]);
    assert(r@[15].aliases@.map_values(|a: &str| a@) =~= seq!["apps-script"@, "script"@]);
    assert(r@[15]@ == service_table()[15]);
    assert(r@[16].aliases@.map_values(|a: &str| a@) =~= seq!["classroom"@]);
    assert(r@[16]@ == service_table()[16]);
    assert(r@[17].aliases@.map_values(|a: &str| a@) =~= seq!["cloudidentity"@]);
    assert(r@[17]@ == service_table()[17]);
    assert(r@[18].aliases@.map_values(|a: &str| a@) =~= seq!["alertcenter"@]);
    assert(r@[18]@ == service_table()[18]);
    assert(r@[19].aliases@.map_values(|a: &str| a@) =~= seq!["forms"@]);
    assert(r@[19]@ == service_table()[19]);
    assert(r@[20].aliases@.map_values(|a: &str| a@) =~= seq!["keep"@]);
    assert(r@[20]@ == service_table()[20]);
    assert(r@[21].aliases@.map_values(|a: &str| a@) =~= seq!["meet"@]);
    assert(r@[21]@ == service_table()[21]);
    assert(r@[22].aliases@.map_values(|a: &str| a@) =~= seq!["events"@]);
    assert(r@[22]@ == service_table()[22]);
    assert(r@[23].aliases@.map_values(|a: &str| a@) =~= seq!["modelarmor"@]);
    assert(r@[23]@ == service_table()[23]);
    assert(r@[24].aliases@.map_values(|a: &str| a@) =~= seq!["workflow"@, "wf"@]);
    assert(r@[24]@ == service_table()[24]);
    assert(services_view(r@) =~= service_table());
    r
}

/// Where `name` is first found among the aliases of `table`.
pub open spec fn first_entry_with_alias(table: Seq<ServiceView>, name: Seq<char>) -> Option<int> {
    Seq::new(table.len(), |k: int| table[k].aliases.contains(name)).index_of_first(true)
}

/// The API name and version that `name` stands for, if it is a known alias.
pub open spec fn spec_resolve_service(name: Seq<char>) -> Option<(Seq<char>, Seq<char>)> {
    match first_entry_with_alias(service_table(), name) {
        Some(k) => Some((service_table()[k].api_name, service_table()[k].version)),
        None => None,
    }
}

/// The aliases of all entries of `table`, in order.
pub open spec fn all_aliases(table: Seq<ServiceView>) -> Seq<Seq<char>>
    decreases table.len(),
{
    if table.len() == 0 {
        Seq::empty()
    } else {
        all_aliases(table.drop_last()) + table.last().aliases
    }
}

/// `items` joined by `sep`.
pub open spec fn join(items: Seq<Seq<char>>, sep: Seq<char>) -> Seq<char>
    decreases items.len(),
{
    if items.len() == 0 {
        Seq::empty()
    } else if items.len() == 1 {
        items[0]
    } else {
        join(items.drop_last(), sep) + sep + items.last()
    }
}

/// The message for an unknown service name: it lists every known alias.
pub open spec fn unknown_service_message(name: Seq<char>) -> Seq<char> {
    "Unknown service '"@ + name + "'. Known services: "@ + join(
        all_aliases(service_table()),
        ", "@,
    ) + ". Use '<api>:<version>' syntax for unlisted APIs."@
}

/// Whether `name` is one of the aliases `aliases`.
fn has_alias(aliases: &[&str], name: &Vec<char>) -> (r: bool)
    ensures
        r == aliases@.map_values(|a: &str| a@).contains(name@),
{
    let ghost al = aliases@.map_values(|a: &str| a@);
    let mut j: usize = 0;
    while j < aliases.len()
        invariant
            al == aliases@.map_values(|a: &str| a@),
            0 <= j <= aliases@.len(),
            forall|k: int| 0 <= k < j ==> al[k] != name@,
        decreases aliases@.len() - j,
    {
        let a = chars_of(aliases[j]);
        if chars_equal(&a, name) {
            assert(al[j as int] == name@);
            return true;
        }
        j = j + 1;
    }
    false
}

/// Appends to `msg` the aliases of `entries`, in order, joined by `", "`.
fn append_joined(msg: &mut String, entries: &Vec<ServiceEntry>)
    ensures
        final(msg)@ == old(msg)@ + join(all_aliases(services_view(entries@)), ", "@),
{
    let ghost start = msg@;
    let ghost table = services_view(entries@);
    let mut first = true;
    let mut i: usize = 0;
    assert(table.take(0) =~= Seq::<ServiceView>::empty());
    while i < entries.len()
        invariant
            table == services_view(entries@),
            0 <= i <= entries@.len(),
            msg@ == start + join(all_aliases(table.take(i as int)), ", "@),
            first == (all_aliases(table.take(i as int)).len() == 0),
        decreases entries@.len() - i,
    {
        let aliases = entries[i].aliases;
        let ghost before = all_aliases(table.take(i as int));
        let ghost al = aliases@.map_values(|a: &str| a@);
        assert(al == table[i as int].aliases);
        let mut j: usize = 0;
        assert(al.take(0) =~= Seq::<Seq<char>>::empty());
        assert(before + al.take(0) =~= before);
        while j < aliases.len()
            invariant
                al == aliases@.map_values(|a: &str| a@),
                0 <= j <= aliases@.len(),
                msg@ == start + join(before + al.take(j as int), ", "@),
                first == ((before + al.take(j as int)).len() == 0),
            decreases aliases@.len() - j,
        {
            let ghost items = before + al.take(j as int);
            assert(before + al.take(j + 1) =~= items.push(aliases@[j as int]@));
            assert(items.push(aliases@[j as int]@).drop_last() =~= items);
            if !first {
                msg.append(", ");
            }
            msg.append(aliases[j]);
            first = false;
            j = j + 1;
        }
        assert(al.take(aliases@.len() as int) =~= al);
        assert(table.take(i + 1).drop_last() =~= table.take(i as int));
        i = i + 1;
    }
    assert(table.take(entries@.len() as int) =~= table);
}

/// Resolves a service alias to its API name and version. Aliases are
/// matched exactly, case included; an unknown name is an error whose message
/// lists every known alias.
pub fn resolve_service(name: &str) -> (r: Result<(String, String), GwsError>)
    ensures
        match r {
            Ok((api_name, version)) => spec_resolve_service(name@) == Some(
                (api_name@, version@),
            ),
            Err(e) => {
                &&& spec_resolve_service(name@) is None
                &&& e matches GwsError::Validation(msg)
                &&& msg@ == unknown_service_message(name@)
            },
        },
{
    let entries = services();
    let ghost table = service_table();
    let ghost flags = Seq::new(table.len(), |k: int| table[k].aliases.contains(name@));
    let name_chars = chars_of(name);
    let mut i: usize = 0;
    while i < entries.len()
        invariant
            services_view(entries@) == table,
            table == service_table(),
            flags == Seq::new(table.len(), |k: int| table[k].aliases.contains(name@)),
            name_chars@ == name@,
            0 <= i <= entries@.len(),
            forall|k: int| 0 <= k < i ==> flags[k] != true,
        decreases entries@.len() - i,
    {
        assert(table[i as int] == entries@[i as int]@);
        if has_alias(entries[i].aliases, &name_chars) {
            proof {
                lemma_index_of_first_at(flags, true, i as int);
            }
            return Ok(
                (String::from_str(entries[i].api_name), String::from_str(entries[i].version)),
            );
        }
        i = i + 1;
    }
    proof {
        lemma_index_of_first_none(flags, true);
    }
    let mut msg = String::from_str("Unknown service '");
    msg.append(name);
    msg.append("'. Known services: ");
    append_joined(&mut msg, &entries);
    msg.append(". Use '<api>:<version>' syntax for unlisted APIs.");
    Err(GwsError::Validation(msg))
}

/// A number for an alias, read off its length and as few of its characters
/// as tell the listed aliases apart: each listed alias gets its place.
spec fn alias_position(a: Seq<char>) -> int {
    if a.len() == 2 {
        28
    } else if a.len() == 4 {
        if a[0] == 'c' {
            12
        } else if a[0] == 'd' {
            8
        } else if a[0] == 'k' {
            23
        } else {
            24
        }
    } else if a.len() == 5 {
        if a[0] == 'a' {
            4
        } else if a[0] == 'd' {
            0
        } else if a[0] == 'f' {
            22
        } else if a[0] == 'g' {
            2
        } else if a[0] == 't' {
            10
        } else {
            13
        }
    } else if a.len() == 6 {
        if a[0] == 'e' {
            25
        } else if a[0] == 'p' {
            11
        } else {
            if a[1] == 'c' {
                18
            } else if a[1] == 'h' {
                1
            } else {
                9
            }
        }
    } else if a.len() == 7 {
        7
    } else if a.len() == 8 {
        if a[0] == 'c' {
            3
        } else if a[0] == 'r' {
            15
        } else {
            27
        }
    } else if a.len() == 9 {
        if a[0] == 'c' {
            19
        } else if a[0] == 'd' {
            5
        } else {
            16
        }
    } else if a.len() == 10 {
        26
    } else if a.len() == 11 {
        if a[1] == 'l' {
            21
        } else {
            17
        }
    } else if a.len() == 13 {
        if a[0] == 'a' {
            6
        } else {
            20
        }
    } else if a.len() == 14 {
        14
    } else {
        -1
    }
}

/// Every alias of the table, in order.
pub open spec fn listed_aliases() -> Seq<Seq<char>> {
    seq!["drive"@, "sheets"@, "gmail"@, "calendar"@, "admin"@, "directory"@, "admin-reports"@, "reports"@, "docs"@, "slides"@, "tasks"@, "people"@, "chat"@, "vault"@, "groupssettings"@, "reseller"@, "licensing"@, "apps-script"@, "script"@, "classroom"@, "cloudidentity"@, "alertcenter"@, "forms"@, "keep"@, "meet"@, "events"@, "modelarmor"@, "workflow"@, "wf"@]
}

/// The aliases of the table, entry after entry, are those of `listed_aliases`.
proof fn lemma_all_aliases_listed()
    ensures
        all_aliases(service_table()) == listed_aliases(),
{
    reveal_with_fuel(all_aliases, 26);
    assert(all_aliases(service_table()) =~= listed_aliases());
}

/// Each listed alias sits at the place that `alias_position` gives it.
proof fn lemma_alias_positions()
    ensures
        forall|p: int|
            0 <= p < listed_aliases().len() ==> alias_position(#[trigger] listed_aliases()[p])
                == p,
{
    reveal_strlit("drive");
    reveal_strlit("sheets");
    reveal_strlit("gmail");
    reveal_strlit("calendar");
    reveal_strlit("admin");
    reveal_strlit("directory");
    reveal_strlit("admin-reports");
    reveal_strlit("reports");
    reveal_strlit("docs");
    reveal_strlit("slides");
    reveal_strlit("tasks");
    reveal_strlit("people");
    reveal_strlit("chat");
    reveal_strlit("vault");
    reveal_strlit("groupssettings");
    reveal_strlit("reseller");
    reveal_strlit("licensing");
    reveal_strlit("apps-script");
    reveal_strlit("script");
    reveal_strlit("classroom");
    reveal_strlit("cloudidentity");
    reveal_strlit("alertcenter");
    reveal_strlit("forms");
    reveal_strlit("keep");
    reveal_strlit("meet");
    reveal_strlit("events");
    reveal_strlit("modelarmor");
    reveal_strlit("workflow");
    reveal_strlit("wf");
}

/// No alias is listed twice, whether for one service or for two.
pub proof fn lemma_aliases_distinct()
    ensures
        all_aliases(service_table()).no_duplicates(),
{
    lemma_all_aliases_listed();
    lemma_alias_positions();
    assert forall|i: int, j: int|
        0 <= i < listed_aliases().len() && 0 <= j < listed_aliases().len() && i != j implies listed_aliases()[i]
        != listed_aliases()[j] by {
        assert(alias_position(listed_aliases()[i]) == i);
        assert(alias_position(listed_aliases()[j]) == j);
    }
}

/// The aliases of the first `m` entries come first among all aliases.
proof fn lemma_aliases_prefix(t: Seq<ServiceView>, m: int)
    requires
        0 <= m <= t.len(),
    ensures
        all_aliases(t.take(m)).is_prefix_of(all_aliases(t)),
    decreases t.len(),
{
    if m == t.len() {
        assert(t.take(m) =~= t);
    } else {
        let q = t.drop_last();
        lemma_aliases_prefix(q, m);
        assert(t.take(m) =~= q.take(m));
        assert(all_aliases(q).is_prefix_of(all_aliases(t)));
    }
}

/// The aliases of entry `k` stand right after those of the entries before it.
proof fn lemma_alias_at(t: Seq<ServiceView>, k: int, j: int)
    requires
        0 <= k < t.len(),
        0 <= j < t[k].aliases.len(),
    ensures
        all_aliases(t.take(k)).len() + t[k].aliases.len() == all_aliases(t.take(k + 1)).len(),
        all_aliases(t.take(k + 1)).len() <= all_aliases(t).len(),
        all_aliases(t)[all_aliases(t.take(k)).len() + j] == t[k].aliases[j],
{
    assert(t.take(k + 1).drop_last() =~= t.take(k));
    lemma_aliases_prefix(t, k + 1);
    let pre = all_aliases(t.take(k + 1));
    assert(pre == all_aliases(t.take(k)) + t[k].aliases);
    assert(pre[all_aliases(t.take(k)).len() + j] == t[k].aliases[j]);
}

/// Entries further on have their aliases further on.
proof fn lemma_alias_offsets_grow(t: Seq<ServiceView>, a: int, b: int)
    requires
        0 <= a <= b <= t.len(),
    ensures
        all_aliases(t.take(a)).len() <= all_aliases(t.take(b)).len(),
{
    lemma_aliases_prefix(t.take(b), a);
    assert(t.take(b).take(a) =~= t.take(a));
}

/// When no alias is listed twice, an alias of entry `k` is found first in
/// entry `k`.
proof fn lemma_first_entry_is_own(t: Seq<ServiceView>, k: int, j: int)
    requires
        all_aliases(t).no_duplicates(),
        0 <= k < t.len(),
        0 <= j < t[k].aliases.len(),
    ensures
        first_entry_with_alias(t, t[k].aliases[j]) == Some(k),
{
    let a = t[k].aliases[j];
    let flags = Seq::new(t.len(), |i: int| t[i].aliases.contains(a));
    lemma_alias_at(t, k, j);
    assert forall|i: int| 0 <= i < k implies flags[i] != true by {
        if t[i].aliases.contains(a) {
            let ji = choose|ji: int| 0 <= ji < t[i].aliases.len() && t[i].aliases[ji] == a;
            lemma_alias_at(t, i, ji);
            lemma_alias_offsets_grow(t, i + 1, k);
            assert(all_aliases(t)[all_aliases(t.take(i)).len() + ji] == all_aliases(
                t,
            )[all_aliases(t.take(k)).len() + j]);
        }
    }
    assert(flags[k]);
    lemma_index_of_first_at(flags, true, k);
}

/// Every alias of the table resolves to the service it is listed for.
pub proof fn lemma_every_alias_resolves_to_its_service(k: int, j: int)
    requires
        0 <= k < service_table().len(),
        0 <= j < service_table()[k].aliases.len(),
    ensures
        spec_resolve_service(service_table()[k].aliases[j]) == Some(
            (service_table()[k].api_name, service_table()[k].version),
        ),
{
    lemma_aliases_distinct();
    lemma_first_entry_is_own(service_table(), k, j);
}

/// What each known alias resolves to: its API name and version.
pub proof fn lemma_known_services()
    ensures
        spec_resolve_service("drive"@) == Some(("drive"@, "v3"@)),
        spec_resolve_service("sheets"@) == Some(("sheets"@, "v4"@)),
        spec_resolve_service("gmail"@) == Some(("gmail"@, "v1"@)),
        spec_resolve_service("calendar"@) == Some(("calendar"@, "v3"@)),
        spec_resolve_service("admin"@) == Some(("admin"@, "directory_v1"@)),
        spec_resolve_service("directory"@) == Some(("admin"@, "directory_v1"@)),
        spec_resolve_service("admin-reports"@) == Some(("admin"@, "reports_v1"@)),
        spec_resolve_service("reports"@) == Some(("admin"@, "reports_v1"@)),
        spec_resolve_service("docs"@) == Some(("docs"@, "v1"@)),
        spec_resolve_service("slides"@) == Some(("slides"@, "v1"@)),
        spec_resolve_service("tasks"@) == Some(("tasks"@, "v1"@)),
        spec_resolve_service("people"@) == Some(("people"@, "v1"@)),
        spec_resolve_service("chat"@) == Some(("chat"@, "v1"@)),
        spec_resolve_service("vault"@) == Some(("vault"@, "v1"@)),
        spec_resolve_service("groupssettings"@) == Some(("groupssettings"@, "v1"@)),
        spec_resolve_service("reseller"@) == Some(("reseller"@, "v1"@)),
        spec_resolve_service("licensing"@) == Some(("licensing"@, "v1"@)),
        spec_resolve_service("apps-script"@) == Some(("script"@, "v1"@)),
        spec_resolve_service("script"@) == Some(("script"@, "v1"@)),
        spec_resolve_service("classroom"@) == Some(("classroom"@, "v1"@)),
        spec_resolve_service("cloudidentity"@) == Some(("cloudidentity"@, "v1"@)),
        spec_resolve_service("alertcenter"@) == Some(("alertcenter"@, "v1beta1"@)),
        spec_resolve_service("forms"@) == Some(("forms"@, "v1"@)),
        spec_resolve_service("keep"@) == Some(("keep"@, "v1"@)),
        spec_resolve_service("meet"@) == Some(("meet"@, "v2"@)),
        spec_resolve_service("events"@) == Some(("workspaceevents"@, "v1"@)),
        spec_resolve_service("modelarmor"@) == Some(("modelarmor"@, "v1"@)),
        spec_resolve_service("workflow"@) == Some(("workflow"@, "v1"@)),
        spec_resolve_service("wf"@) == Some(("workflow"@, "v1"@)),
{
    lemma_every_alias_resolves_to_its_service(0, 0);
    lemma_every_alias_resolves_to_its_service(1, 0);
    lemma_every_alias_resolves_to_its_service(2, 0);
    lemma_every_alias_resolves_to_its_service(3, 0);
    lemma_every_alias_resolves_to_its_service(4, 0);
    lemma_every_alias_resolves_to_its_service(4, 1);
    lemma_every_alias_resolves_to_its_service(5, 0);
    lemma_every_alias_resolves_to_its_service(5, 1);
    lemma_every_alias_resolves_to_its_service(6, 0);
    lemma_every_alias_resolves_to_its_service(7, 0);
    lemma_every_alias_resolves_to_its_service(8, 0);
    lemma_every_alias_resolves_to_its_service(9, 0);
    lemma_every_alias_resolves_to_its_service(10, 0);
    lemma_every_alias_resolves_to_its_service(11, 0);
    lemma_every_alias_resolves_to_its_service(12, 0);
    lemma_every_alias_resolves_to_its_service(13, 0);
    lemma_every_alias_resolves_to_its_service(14, 0);
    lemma_every_alias_resolves_to_its_service(15, 0);
    lemma_every_alias_resolves_to_its_service(15, 1);
    lemma_every_alias_resolves_to_its_service(16, 0);
    lemma_every_alias_resolves_to_its_service(17, 0);
    lemma_every_alias_resolves_to_its_service(18, 0);
    lemma_every_alias_resolves_to_its_service(19, 0);
    lemma_every_alias_resolves_to_its_service(20, 0);
    lemma_every_alias_resolves_to_its_service(21, 0);
    lemma_every_alias_resolves_to_its_service(22, 0);
    lemma_every_alias_resolves_to_its_service(23, 0);
    lemma_every_alias_resolves_to_its_service(24, 0);
    lemma_every_alias_resolves_to_its_service(24, 1);
}

} // verus!
