//! What a Windows event says beyond its id: remote logons, Kerberos roasting,
//! firewall decisions, audit policy changes, named pipes and PsExec, as a family,
//! a kind and labels; and how those raise severity and enrich a message.
use vstd::prelude::*;
use crate::datetime::{event_time_search_terms, time_search_terms};
use crate::decode::opt_view;
use crate::events::{
    event_number, firewall_action, firewall_direction, normalize_firewall_action,
    normalize_firewall_direction, str_view,
};
use crate::order::{insert_sorted, strictly_sorted};
use crate::row::{
    audit_subcategory, audit_subcategory_name, entries, event_field, first_event_field,
    logon_type, logon_type_name, static_view, ticket_encryption, ticket_encryption_type_name,
    vec_strings,
};
use crate::text::{
    chars_of, contains, contains_str, eq_ignore_case, eq_ignore_case_chars, eq_str, lower,
    lower_chars, parse_i64, push_all, string_from, string_of, trim_chars, views,
};
use crate::textlog::{truncate, truncated};

verus! {

/// What is read from an event: family, kind, labels (sorted, without repeats),
/// the texts its time may be searched under, and the fields the labels rest on.
#[derive(Debug, Clone)]
pub struct EvtxSemantics {
    pub event_family: Option<&'static str>,
    pub event_kind: Option<&'static str>,
    pub labels: Vec<String>,
    pub time_search_terms: Vec<String>,
    pub logon_type: Option<String>,
    pub logon_type_name: Option<&'static str>,
    pub ticket_encryption_type: Option<String>,
    pub ticket_encryption_name: Option<&'static str>,
    pub ticket_encryption_weak: bool,
    pub pre_auth_type: Option<String>,
    pub service_name: Option<String>,
    pub rule_name: Option<String>,
    pub firewall_direction: Option<String>,
    pub firewall_action: Option<String>,
    pub audit_subcategory: Option<String>,
    pub pipe_name: Option<String>,
}

/// Family, kind and labels so far.
pub open spec fn st(
    fam: Option<&'static str>,
    kind: Option<&'static str>,
    labels: Seq<String>,
) -> (Option<Seq<char>>, Option<Seq<char>>, Seq<Seq<char>>) {
    (static_view(fam), static_view(kind), vec_strings(labels))
}

pub open spec fn in_ids(id: Option<int>, ids: Seq<int>) -> bool {
    match id {
        Some(n) => ids.contains(n),
        None => false,
    }
}

/// A logon of type 10 is a Remote Desktop logon.
pub open spec fn step_rdp_logon(
    s: (Option<Seq<char>>, Option<Seq<char>>, Seq<Seq<char>>),
    id: Option<int>,
    logon_name: Option<Seq<char>>,
) -> (Option<Seq<char>>, Option<Seq<char>>, Seq<Seq<char>>) {
    if id == Some(4624int) && logon_name == Some("remote_interactive"@) {
        (Some("remote_access"@), Some("rdp_logon_success"@), s.2.push("rdp_logon_type_10"@))
    } else {
        s
    }
}

/// Event 1149 and the Remote Connection Manager log record RDP authentications.
pub open spec fn step_rdp_auth(
    s: (Option<Seq<char>>, Option<Seq<char>>, Seq<Seq<char>>),
    id: Option<int>,
    p: Seq<char>,
    c: Seq<char>,
) -> (Option<Seq<char>>, Option<Seq<char>>, Seq<Seq<char>>) {
    if id == Some(1149int) || contains(p, "remoteconnectionmanager"@) || contains(
        c,
        "terminalservices-remoteconnectionmanager"@,
    ) {
        (
            Some("remote_access"@),
            Some("rdp_authentication_success"@),
            s.2.push("rdp_1149_authentication"@),
        )
    } else {
        s
    }
}

/// Kerberos ticket requests: RC4 tickets, AS-REP roasting (no pre-authentication)
/// and Kerberoasting (an RC4 service ticket for a service other than krbtgt).
pub open spec fn step_kerberos(
    s: (Option<Seq<char>>, Option<Seq<char>>, Seq<Seq<char>>),
    id: Option<int>,
    enc_name: Option<Seq<char>>,
    pre_auth: Option<Seq<char>>,
    service: Option<Seq<char>>,
) -> (Option<Seq<char>>, Option<Seq<char>>, Seq<Seq<char>>) {
    if in_ids(id, seq![4768int, 4769, 4771]) {
        let kind = if id == Some(4768int) {
            "kerberos_as_request"@
        } else if id == Some(4769int) {
            "kerberos_tgs_request"@
        } else {
            "kerberos_preauth_failed"@
        };
        let first = if id == Some(4768int) {
            "kerberos_as_req"@
        } else if id == Some(4769int) {
            "kerberos_tgs_req"@
        } else {
            "kerberos_preauth_failed"@
        };
        let rc4 = enc_name == Some("rc4_hmac"@);
        let l1 = s.2.push(first);
        let l2 = if rc4 {
            l1.push("kerberos_rc4_ticket"@)
        } else {
            l1
        };
        let l3 = if id == Some(4768int) && pre_auth == Some("0"@) {
            l2.push("asrep_roast_candidate"@)
        } else {
            l2
        };
        let not_krbtgt = match service {
            Some(n) => !eq_ignore_case(n, "krbtgt"@),
            None => true,
        };
        let l4 = if id == Some(4769int) && rc4 && not_krbtgt {
            l3.push("kerberoast_candidate"@)
        } else {
            l3
        };
        (Some("kerberos"@), Some(kind), l4)
    } else {
        s
    }
}

pub open spec fn firewall_ids() -> Seq<int> {
    seq![4946int, 4947, 4948, 4949, 4950, 4954, 5152, 5156, 5157, 2004, 2005, 2006]
}

/// Firewall events and logs: the kind by id, outbound and blocked traffic.
pub open spec fn step_firewall(
    s: (Option<Seq<char>>, Option<Seq<char>>, Seq<Seq<char>>),
    id: Option<int>,
    p: Seq<char>,
    c: Seq<char>,
    direction: Option<Seq<char>>,
    verdict: Option<Seq<char>>,
) -> (Option<Seq<char>>, Option<Seq<char>>, Seq<Seq<char>>) {
    if in_ids(id, firewall_ids()) || contains(p, "firewall"@) || contains(c, "firewall"@) {
        let kind = if id == Some(5156int) {
            "firewall_connection_allowed"@
        } else if id == Some(5157int) || id == Some(5152int) {
            "firewall_connection_blocked"@
        } else if id == Some(4946int) || id == Some(2004int) {
            "firewall_rule_added"@
        } else if id == Some(4947int) || id == Some(2005int) {
            "firewall_rule_modified"@
        } else if id == Some(4948int) || id == Some(2006int) {
            "firewall_rule_deleted"@
        } else if in_ids(id, seq![4949int, 4950, 4954]) {
            "firewall_policy_changed"@
        } else {
            "firewall_event"@
        };
        let l1 = s.2.push(kind);
        let l2 = if direction == Some("outbound"@) {
            l1.push("firewall_outbound"@)
        } else {
            l1
        };
        let l3 = if verdict == Some("blocked"@) {
            l2.push("firewall_block"@)
        } else {
            l2
        };
        (Some("firewall"@), Some(kind), l3)
    } else {
        s
    }
}

pub open spec fn audit_ids() -> Seq<int> {
    seq![4703int, 4719, 4902, 4904, 4905, 4906, 4907, 4908, 4912]
}

/// Audit policy and privilege right changes.
pub open spec fn step_audit(s: (Option<Seq<char>>, Option<Seq<char>>, Seq<Seq<char>>), id: Option<int>) -> (
    Option<Seq<char>>,
    Option<Seq<char>>,
    Seq<Seq<char>>,
) {
    if in_ids(id, audit_ids()) {
        let kind = if id == Some(4703int) {
            "privilege_rights_changed"@
        } else if id == Some(4719int) {
            "system_audit_policy_changed"@
        } else if id == Some(4902int) {
            "per_user_audit_policy_table_created"@
        } else if id == Some(4904int) {
            "security_event_source_registered"@
        } else if id == Some(4905int) {
            "security_event_source_unregistered"@
        } else {
            "audit_policy_changed"@
        };
        (Some("audit_policy"@), Some(kind), s.2.push(kind))
    } else {
        s
    }
}

pub open spec fn or_text(a: Option<Seq<char>>, b: Seq<char>) -> Seq<char> {
    match a {
        Some(x) => x,
        None => b,
    }
}

/// Named pipes (Sysmon 17 and 18, or any event naming a pipe); PsExec's pipes.
pub open spec fn step_pipe(
    s: (Option<Seq<char>>, Option<Seq<char>>, Seq<Seq<char>>),
    id: Option<int>,
    p: Seq<char>,
    pipe: Option<Seq<char>>,
) -> (Option<Seq<char>>, Option<Seq<char>>, Seq<Seq<char>>) {
    if (contains(p, "sysmon"@) && in_ids(id, seq![17int, 18])) || pipe is Some {
        let fam = match s.0 {
            Some(f) => f,
            None => "execution"@,
        };
        let kind = if id == Some(17int) {
            "named_pipe_created"@
        } else if id == Some(18int) {
            "named_pipe_connected"@
        } else {
            or_text(s.1, "named_pipe_observed"@)
        };
        let pl = lower(or_text(pipe, Seq::empty()));
        let l1 = s.2.push(kind);
        let l2 = if contains(pl, "psexesvc"@) || contains(pl, "paexec"@) {
            l1.push("psexec_named_pipe"@)
        } else {
            l1
        };
        (Some(fam), Some(kind), l2)
    } else {
        s
    }
}

/// The PsExec service.
pub open spec fn step_psexec(s: (Option<Seq<char>>, Option<Seq<char>>, Seq<Seq<char>>), service: Option<Seq<char>>) -> (
    Option<Seq<char>>,
    Option<Seq<char>>,
    Seq<Seq<char>>,
) {
    if contains(lower(or_text(service, Seq::empty())), "psexesvc"@) {
        (Some("lateral_movement"@), Some("psexec_service_observed"@), s.2.push("psexec_service"@))
    } else {
        s
    }
}

pub open spec fn opt_and_then(o: Option<Seq<char>>, f: spec_fn(Seq<char>) -> Option<Seq<char>>) -> Option<Seq<char>> {
    match o {
        Some(v) => f(v),
        None => None,
    }
}

/// Family, kind and labels (in the order found, repeats included) of an event.
pub open spec fn semantic_steps(
    id: Option<int>,
    p: Seq<char>,
    c: Seq<char>,
    row: Seq<(Seq<char>, Seq<char>)>,
) -> (Option<Seq<char>>, Option<Seq<char>>, Seq<Seq<char>>) {
    let ltn = opt_and_then(event_field(row, seq!["LogonType"@, "Type"@]), |v: Seq<char>| logon_type(v));
    let ten = opt_and_then(event_field(row, seq!["TicketEncryptionType"@]), |v: Seq<char>| ticket_encryption(v));
    let pat = event_field(row, seq!["PreAuthType"@, "PreAuthenticationType"@]);
    let svc = event_field(row, seq!["ServiceName"@, "Svc"@]);
    let dir = opt_and_then(event_field(row, seq!["Direction"@]), |v: Seq<char>| firewall_direction(v));
    let act = opt_and_then(event_field(row, seq!["Action"@, "FWLink"@, "SettingValue"@]), |v: Seq<char>| firewall_action(v));
    let pipe = event_field(row, seq!["PipeName"@]);
    let s0 = (None::<Seq<char>>, None::<Seq<char>>, Seq::<Seq<char>>::empty());
    let s1 = step_rdp_logon(s0, id, ltn);
    let s2 = step_rdp_auth(s1, id, p, c);
    let s3 = step_kerberos(s2, id, ten, pat, svc);
    let s4 = step_firewall(s3, id, p, c, dir, act);
    let s5 = step_audit(s4, id);
    let s6 = step_pipe(s5, id, p, pipe);
    step_psexec(s6, svc)
}

fn push_label(labels: &mut Vec<String>, l: &str)
    ensures
        vec_strings(final(labels)@) == vec_strings(old(labels)@).push(l@),
{
    let ghost prev = vec_strings(labels@);
    labels.push(string_of(l));
    assert(vec_strings(labels@) =~= prev.push(l@));
}

pub open spec fn id_view(id: Option<i64>) -> Option<int> {
    match id {
        Some(v) => Some(v as int),
        None => None,
    }
}

fn exec_rdp_logon(
    fam: &mut Option<&'static str>,
    kind: &mut Option<&'static str>,
    labels: &mut Vec<String>,
    id: Option<i64>,
    logon_name: Option<&'static str>,
)
    ensures
        st(*final(fam), *final(kind), final(labels)@) == step_rdp_logon(
            st(*old(fam), *old(kind), old(labels)@),
            id_view(id),
            static_view(logon_name),
        ),
{
    let remote = match logon_name {
        Some(n) => eq_str(chars_of(n).as_slice(), "remote_interactive"),
        None => false,
    };
    if id == Some(4624i64) && remote {
        *fam = Some("remote_access");
        *kind = Some("rdp_logon_success");
        push_label(labels, "rdp_logon_type_10");
    }
}

fn exec_rdp_auth(
    fam: &mut Option<&'static str>,
    kind: &mut Option<&'static str>,
    labels: &mut Vec<String>,
    id: Option<i64>,
    p: &[char],
    c: &[char],
)
    ensures
        st(*final(fam), *final(kind), final(labels)@) == step_rdp_auth(
            st(*old(fam), *old(kind), old(labels)@),
            id_view(id),
            p@,
            c@,
        ),
{
    if id == Some(1149i64) || contains_str(p, "remoteconnectionmanager") || contains_str(
        c,
        "terminalservices-remoteconnectionmanager",
    ) {
        *fam = Some("remote_access");
        *kind = Some("rdp_authentication_success");
        push_label(labels, "rdp_1149_authentication");
    }
}

fn opt_is(o: Option<&'static str>, v: &str) -> (r: bool)
    ensures
        r == (static_view(o) == Some(v@)),
{
    match o {
        Some(x) => eq_str(chars_of(x).as_slice(), v),
        None => false,
    }
}

fn opt_string_is(o: &Option<String>, v: &str) -> (r: bool)
    ensures
        r == (opt_view(*o) == Some(v@)),
{
    match o {
        Some(x) => eq_str(chars_of(x.as_str()).as_slice(), v),
        None => false,
    }
}

fn exec_kerberos(
    fam: &mut Option<&'static str>,
    kind: &mut Option<&'static str>,
    labels: &mut Vec<String>,
    id: Option<i64>,
    enc_name: Option<&'static str>,
    pre_auth: &Option<String>,
    service: &Option<String>,
)
    ensures
        st(*final(fam), *final(kind), final(labels)@) == step_kerberos(
            st(*old(fam), *old(kind), old(labels)@),
            id_view(id),
            static_view(enc_name),
            opt_view(*pre_auth),
            opt_view(*service),
        ),
{
    let n: i64 = match id {
        Some(v) => v,
        None => 0,
    };
    let kerberos = id.is_some() && (n == 4768 || n == 4769 || n == 4771);
    assert(kerberos == in_ids(id_view(id), seq![4768int, 4769, 4771])) by {
        let ids = seq![4768int, 4769, 4771];
        assert(ids[0] == 4768 && ids[1] == 4769 && ids[2] == 4771);
    }
    if !kerberos {
        return;
    }
    *fam = Some("kerberos");
    if n == 4768 {
        *kind = Some("kerberos_as_request");
        push_label(labels, "kerberos_as_req");
    } else if n == 4769 {
        *kind = Some("kerberos_tgs_request");
        push_label(labels, "kerberos_tgs_req");
    } else {
        *kind = Some("kerberos_preauth_failed");
        push_label(labels, "kerberos_preauth_failed");
    }
    let rc4 = opt_is(enc_name, "rc4_hmac");
    if rc4 {
        push_label(labels, "kerberos_rc4_ticket");
    }
    if n == 4768 && opt_string_is(pre_auth, "0") {
        push_label(labels, "asrep_roast_candidate");
    }
    let not_krbtgt = match service {
        Some(name) => {
            let k = chars_of("krbtgt");
            !eq_ignore_case_chars(chars_of(name.as_str()).as_slice(), k.as_slice())
        },
        None => true,
    };
    if n == 4769 && rc4 && not_krbtgt {
        push_label(labels, "kerberoast_candidate");
    }
}

fn exec_firewall(
    fam: &mut Option<&'static str>,
    kind: &mut Option<&'static str>,
    labels: &mut Vec<String>,
    id: Option<i64>,
    p: &[char],
    c: &[char],
    direction: Option<&'static str>,
    verdict: Option<&'static str>,
)
    ensures
        st(*final(fam), *final(kind), final(labels)@) == step_firewall(
            st(*old(fam), *old(kind), old(labels)@),
            id_view(id),
            p@,
            c@,
            static_view(direction),
            static_view(verdict),
        ),
{
    let n: i64 = match id {
        Some(v) => v,
        None => 0,
    };
    let by_id = id.is_some() && (n == 4946 || n == 4947 || n == 4948 || n == 4949 || n == 4950
        || n == 4954 || n == 5152 || n == 5156 || n == 5157 || n == 2004 || n == 2005 || n
        == 2006);
    assert(by_id == in_ids(id_view(id), firewall_ids())) by {
        let ids = firewall_ids();
        assert(ids[0] == 4946 && ids[1] == 4947 && ids[2] == 4948 && ids[3] == 4949 && ids[4]
            == 4950 && ids[5] == 4954 && ids[6] == 5152 && ids[7] == 5156 && ids[8] == 5157
            && ids[9] == 2004 && ids[10] == 2005 && ids[11] == 2006);
    }
    if !(by_id || contains_str(p, "firewall") || contains_str(c, "firewall")) {
        return;
    }
    let policy = id.is_some() && (n == 4949 || n == 4950 || n == 4954);
    assert(policy == in_ids(id_view(id), seq![4949int, 4950, 4954])) by {
        let ids = seq![4949int, 4950, 4954];
        assert(ids[0] == 4949 && ids[1] == 4950 && ids[2] == 4954);
    }
    let k: &'static str = if id == Some(5156i64) {
        "firewall_connection_allowed"
    } else if id == Some(5157i64) || id == Some(5152i64) {
        "firewall_connection_blocked"
    } else if id == Some(4946i64) || id == Some(2004i64) {
        "firewall_rule_added"
    } else if id == Some(4947i64) || id == Some(2005i64) {
        "firewall_rule_modified"
    } else if id == Some(4948i64) || id == Some(2006i64) {
        "firewall_rule_deleted"
    } else if policy {
        "firewall_policy_changed"
    } else {
        "firewall_event"
    };
    *fam = Some("firewall");
    *kind = Some(k);
    push_label(labels, k);
    if opt_is(direction, "outbound") {
        push_label(labels, "firewall_outbound");
    }
    if opt_is(verdict, "blocked") {
        push_label(labels, "firewall_block");
    }
}

fn exec_audit(
    fam: &mut Option<&'static str>,
    kind: &mut Option<&'static str>,
    labels: &mut Vec<String>,
    id: Option<i64>,
)
    ensures
        st(*final(fam), *final(kind), final(labels)@) == step_audit(
            st(*old(fam), *old(kind), old(labels)@),
            id_view(id),
        ),
{
    let n: i64 = match id {
        Some(v) => v,
        None => 0,
    };
    let audit = id.is_some() && (n == 4703 || n == 4719 || n == 4902 || n == 4904 || n == 4905
        || n == 4906 || n == 4907 || n == 4908 || n == 4912);
    assert(audit == in_ids(id_view(id), audit_ids())) by {
        let ids = audit_ids();
        assert(ids[0] == 4703 && ids[1] == 4719 && ids[2] == 4902 && ids[3] == 4904 && ids[4]
            == 4905 && ids[5] == 4906 && ids[6] == 4907 && ids[7] == 4908 && ids[8] == 4912);
    }
    if !audit {
        return;
    }
    let k: &'static str = if n == 4703 {
        "privilege_rights_changed"
    } else if n == 4719 {
        "system_audit_policy_changed"
    } else if n == 4902 {
        "per_user_audit_policy_table_created"
    } else if n == 4904 {
        "security_event_source_registered"
    } else if n == 4905 {
        "security_event_source_unregistered"
    } else {
        "audit_policy_changed"
    };
    *fam = Some("audit_policy");
    *kind = Some(k);
    push_label(labels, k);
}

fn lower_or_empty(o: &Option<String>) -> (r: Vec<char>)
    ensures
        r@ == lower(or_text(opt_view(*o), Seq::empty())),
{
    match o {
        Some(x) => lower_chars(chars_of(x.as_str()).as_slice()),
        None => {
            let v: Vec<char> = Vec::new();
            assert(lower(Seq::<char>::empty()) =~= v@);
            v
        },
    }
}

fn exec_pipe(
    fam: &mut Option<&'static str>,
    kind: &mut Option<&'static str>,
    labels: &mut Vec<String>,
    id: Option<i64>,
    p: &[char],
    pipe: &Option<String>,
)
    ensures
        st(*final(fam), *final(kind), final(labels)@) == step_pipe(
            st(*old(fam), *old(kind), old(labels)@),
            id_view(id),
            p@,
            opt_view(*pipe),
        ),
{
    let n: i64 = match id {
        Some(v) => v,
        None => 0,
    };
    let sysmon_pipe = id.is_some() && (n == 17 || n == 18);
    assert(sysmon_pipe == in_ids(id_view(id), seq![17int, 18])) by {
        let ids = seq![17int, 18];
        assert(ids[0] == 17 && ids[1] == 18);
    }
    if !((contains_str(p, "sysmon") && sysmon_pipe) || pipe.is_some()) {
        return;
    }
    if fam.is_none() {
        *fam = Some("execution");
    }
    let k: &'static str = if id == Some(17i64) {
        "named_pipe_created"
    } else if id == Some(18i64) {
        "named_pipe_connected"
    } else {
        match *kind {
            Some(x) => x,
            None => "named_pipe_observed",
        }
    };
    *kind = Some(k);
    push_label(labels, k);
    let pl = lower_or_empty(pipe);
    if contains_str(pl.as_slice(), "psexesvc") || contains_str(pl.as_slice(), "paexec") {
        push_label(labels, "psexec_named_pipe");
    }
}

fn exec_psexec(
    fam: &mut Option<&'static str>,
    kind: &mut Option<&'static str>,
    labels: &mut Vec<String>,
    service: &Option<String>,
)
    ensures
        st(*final(fam), *final(kind), final(labels)@) == step_psexec(
            st(*old(fam), *old(kind), old(labels)@),
            opt_view(*service),
        ),
{
    let sl = lower_or_empty(service);
    if contains_str(sl.as_slice(), "psexesvc") {
        *fam = Some("lateral_movement");
        *kind = Some("psexec_service_observed");
        push_label(labels, "psexec_service");
    }
}

fn static_and_then_logon(o: &Option<String>) -> (r: Option<&'static str>)
    ensures
        static_view(r) == opt_and_then(opt_view(*o), |v: Seq<char>| logon_type(v)),
{
    match o {
        Some(v) => logon_type_name(v.as_str()),
        None => None,
    }
}

fn static_and_then_ticket(o: &Option<String>) -> (r: Option<&'static str>)
    ensures
        static_view(r) == opt_and_then(opt_view(*o), |v: Seq<char>| ticket_encryption(v)),
{
    match o {
        Some(v) => ticket_encryption_type_name(v.as_str()),
        None => None,
    }
}

fn static_and_then_direction(o: &Option<String>) -> (r: Option<&'static str>)
    ensures
        static_view(r) == opt_and_then(opt_view(*o), |v: Seq<char>| firewall_direction(v)),
{
    match o {
        Some(v) => normalize_firewall_direction(v.as_str()),
        None => None,
    }
}

fn static_and_then_action(o: &Option<String>) -> (r: Option<&'static str>)
    ensures
        static_view(r) == opt_and_then(opt_view(*o), |v: Seq<char>| firewall_action(v)),
{
    match o {
        Some(v) => normalize_firewall_action(v.as_str()),
        None => None,
    }
}

fn static_string(o: Option<&'static str>) -> (r: Option<String>)
    ensures
        opt_view(r) == static_view(o),
{
    match o {
        Some(v) => Some(string_of(v)),
        None => None,
    }
}

/// An optional text in lower case, empty when absent.
pub open spec fn lower_opt(o: Option<Seq<char>>) -> Seq<char> {
    lower(or_text(o, Seq::empty()))
}

/// What the semantics read from an event say: family, kind and labels as the
/// steps decide them (labels sorted, each once), the time search terms, and the
/// fields they are read from.
pub open spec fn semantics_of(
    event_id: Option<Seq<char>>,
    provider: Option<Seq<char>>,
    channel: Option<Seq<char>>,
    row: Seq<(Seq<char>, Seq<char>)>,
    event_time_utc: Seq<char>,
    time_original: Option<Seq<char>>,
    r: EvtxSemantics,
) -> bool {
    let steps = semantic_steps(
        event_number(event_id),
        lower_opt(provider),
        lower_opt(channel),
        row,
    );
    &&& static_view(r.event_family) == steps.0
    &&& static_view(r.event_kind) == steps.1
    &&& strictly_sorted(vec_strings(r.labels@))
    &&& vec_strings(r.labels@).to_set() == steps.2.to_set()
    &&& vec_strings(r.time_search_terms@) == time_search_terms(
        event_time_utc,
        time_original,
    )
    &&& opt_view(r.logon_type) == event_field(row, seq!["LogonType"@, "Type"@])
    &&& static_view(r.logon_type_name) == opt_and_then(
        event_field(row, seq!["LogonType"@, "Type"@]),
        |v: Seq<char>| logon_type(v),
    )
    &&& opt_view(r.ticket_encryption_type) == event_field(row, seq!["TicketEncryptionType"@])
    &&& static_view(r.ticket_encryption_name) == opt_and_then(
        event_field(row, seq!["TicketEncryptionType"@]),
        |v: Seq<char>| ticket_encryption(v),
    )
    &&& r.ticket_encryption_weak == (static_view(r.ticket_encryption_name) == Some(
        "rc4_hmac"@,
    ))
    &&& opt_view(r.pre_auth_type) == event_field(
        row,
        seq!["PreAuthType"@, "PreAuthenticationType"@],
    )
    &&& opt_view(r.service_name) == event_field(row, seq!["ServiceName"@, "Svc"@])
    &&& opt_view(r.rule_name) == event_field(row, seq!["RuleName"@, "Rule Name"@, "Name"@])
    &&& opt_view(r.firewall_direction) == opt_and_then(
        event_field(row, seq!["Direction"@]),
        |v: Seq<char>| firewall_direction(v),
    )
    &&& opt_view(r.firewall_action) == opt_and_then(
        event_field(row, seq!["Action"@, "FWLink"@, "SettingValue"@]),
        |v: Seq<char>| firewall_action(v),
    )
    &&& opt_view(r.audit_subcategory) == audit_subcategory(row)
    &&& opt_view(r.pipe_name) == event_field(row, seq!["PipeName"@])
}

#[verifier::rlimit(60)]
pub fn evtx_semantics(
    event_id: Option<&str>,
    provider: Option<&str>,
    channel: Option<&str>,
    data: &[(String, String)],
    event_time_utc: &str,
    time_original: Option<&str>,
) -> (r: EvtxSemantics)
    ensures
        semantics_of(
            str_view(event_id),
            str_view(provider),
            str_view(channel),
            entries(data@),
            event_time_utc@,
            str_view(time_original),
            r,
        ),
{
    let id = match event_id {
        Some(s) => parse_i64(trim_chars(chars_of(s).as_slice()).as_slice()),
        None => None,
    };
    let pc = match provider {
        Some(v) => lower_chars(chars_of(v).as_slice()),
        None => Vec::new(),
    };
    let cc = match channel {
        Some(v) => lower_chars(chars_of(v).as_slice()),
        None => Vec::new(),
    };
    assert(pc@ =~= lower_opt(str_view(provider)));
    assert(cc@ =~= lower_opt(str_view(channel)));
    let n0 = ["LogonType", "Type"];
    assert(views(n0@) =~= seq!["LogonType"@, "Type"@]);
    let n1 = ["TicketEncryptionType"];
    assert(views(n1@) =~= seq!["TicketEncryptionType"@]);
    let n2 = ["PreAuthType", "PreAuthenticationType"];
    assert(views(n2@) =~= seq!["PreAuthType"@, "PreAuthenticationType"@]);
    let n3 = ["ServiceName", "Svc"];
    assert(views(n3@) =~= seq!["ServiceName"@, "Svc"@]);
    let n4 = ["RuleName", "Rule Name", "Name"];
    assert(views(n4@) =~= seq!["RuleName"@, "Rule Name"@, "Name"@]);
    let n5 = ["Direction"];
    assert(views(n5@) =~= seq!["Direction"@]);
    let n6 = ["Action", "FWLink", "SettingValue"];
    assert(views(n6@) =~= seq!["Action"@, "FWLink"@, "SettingValue"@]);
    let n7 = ["PipeName"];
    assert(views(n7@) =~= seq!["PipeName"@]);
    let logon_type = first_event_field(data, &n0);
    let logon_name = static_and_then_logon(&logon_type);
    let ticket_type = first_event_field(data, &n1);
    let ticket_name = static_and_then_ticket(&ticket_type);
    let pre_auth = first_event_field(data, &n2);
    let service = first_event_field(data, &n3);
    let rule = first_event_field(data, &n4);
    let direction_raw = first_event_field(data, &n5);
    let direction = static_and_then_direction(&direction_raw);
    let action_raw = first_event_field(data, &n6);
    let verdict = static_and_then_action(&action_raw);
    let audit = audit_subcategory_name(data);
    let pipe = first_event_field(data, &n7);
    let mut fam: Option<&'static str> = None;
    let mut kind: Option<&'static str> = None;
    let mut raw: Vec<String> = Vec::new();
    assert(st(fam, kind, raw@) =~= (None::<Seq<char>>, None::<Seq<char>>, Seq::<Seq<char>>::empty()));
    exec_rdp_logon(&mut fam, &mut kind, &mut raw, id, logon_name);
    exec_rdp_auth(&mut fam, &mut kind, &mut raw, id, pc.as_slice(), cc.as_slice());
    exec_kerberos(&mut fam, &mut kind, &mut raw, id, ticket_name, &pre_auth, &service);
    exec_firewall(&mut fam, &mut kind, &mut raw, id, pc.as_slice(), cc.as_slice(), direction, verdict);
    exec_audit(&mut fam, &mut kind, &mut raw, id);
    exec_pipe(&mut fam, &mut kind, &mut raw, id, pc.as_slice(), &pipe);
    exec_psexec(&mut fam, &mut kind, &mut raw, &service);
    let mut labels: Vec<String> = Vec::new();
    let mut i: usize = 0;
    while i < raw.len()
        invariant
            i <= raw.len(),
            strictly_sorted(vec_strings(labels@)),
            vec_strings(labels@).to_set() == vec_strings(raw@).take(i as int).to_set(),
        decreases raw.len() - i,
    {
        let ghost before = vec_strings(raw@).take(i as int);
        assert(vec_strings(raw@).take(i + 1) =~= before.push(vec_strings(raw@)[i as int]));
        proof {
            before.lemma_push_to_set_commute(vec_strings(raw@)[i as int]);
        }
        insert_sorted(&mut labels, raw[i].clone());
        i = i + 1;
    }
    assert(vec_strings(raw@).take(raw@.len() as int) =~= vec_strings(raw@));
    let weak = opt_is(ticket_name, "rc4_hmac");
    EvtxSemantics {
        event_family: fam,
        event_kind: kind,
        labels,
        time_search_terms: event_time_search_terms(event_time_utc, time_original),
        logon_type,
        logon_type_name: logon_name,
        ticket_encryption_type: ticket_type,
        ticket_encryption_name: ticket_name,
        ticket_encryption_weak: weak,
        pre_auth_type: pre_auth,
        service_name: service,
        rule_name: rule,
        firewall_direction: static_string(direction),
        firewall_action: static_string(verdict),
        audit_subcategory: audit,
        pipe_name: pipe,
    }
}

/// The semantics carry a label.
pub open spec fn has_label(sem: EvtxSemantics, label: Seq<char>) -> bool {
    vec_strings(sem.labels@).contains(label)
}

pub fn semantic_label_contains(semantics: &EvtxSemantics, label: &str) -> (r: bool)
    ensures
        r == has_label(*semantics, label@),
{
    let lc = chars_of(label);
    crate::row::contains_string_pub(&semantics.labels, &string_from(lc.as_slice()))
}

/// The severity of an event given what its semantics say: high for roasting,
/// PsExec and blocked traffic; at least medium for outbound traffic, audit policy
/// changes and RDP logons; else as it was.
pub open spec fn semantic_severity(base: Seq<char>, sem: EvtxSemantics) -> Seq<char> {
    if has_label(sem, "asrep_roast_candidate"@) || has_label(sem, "kerberoast_candidate"@)
        || has_label(sem, "psexec_service"@) || has_label(sem, "psexec_named_pipe"@) || has_label(
        sem,
        "firewall_block"@,
    ) {
        "high"@
    } else if has_label(sem, "firewall_outbound"@) || has_label(sem, "audit_policy_changed"@)
        || has_label(sem, "system_audit_policy_changed"@) || has_label(sem, "rdp_logon_type_10"@) {
        if base == "critical"@ || base == "high"@ {
            base
        } else {
            "medium"@
        }
    } else {
        base
    }
}

pub fn evtx_semantic_severity(base: &'static str, semantics: &EvtxSemantics) -> (r: &'static str)
    ensures
        r@ == semantic_severity(base@, *semantics),
{
    if semantic_label_contains(semantics, "asrep_roast_candidate") || semantic_label_contains(
        semantics,
        "kerberoast_candidate",
    ) || semantic_label_contains(semantics, "psexec_service") || semantic_label_contains(
        semantics,
        "psexec_named_pipe",
    ) || semantic_label_contains(semantics, "firewall_block") {
        "high"
    } else if semantic_label_contains(semantics, "firewall_outbound") || semantic_label_contains(
        semantics,
        "audit_policy_changed",
    ) || semantic_label_contains(semantics, "system_audit_policy_changed")
        || semantic_label_contains(semantics, "rdp_logon_type_10") {
        let b = chars_of(base);
        if eq_str(b.as_slice(), "critical") || eq_str(b.as_slice(), "high") {
            base
        } else {
            "medium"
        }
    } else {
        base
    }
}

/// `label=value` appended to a message, the value cut to 120 characters, unless
/// the value is empty or already in the message.
pub open spec fn enrich_with(m: Seq<char>, label: Seq<char>, v: Option<Seq<char>>) -> Seq<char> {
    match v {
        Some(x) => if x.len() == 0 || contains(m, x) {
            m
        } else {
            m + seq![' '] + label + seq!['='] + truncated(x, 120)
        },
        None => m,
    }
}

/// A message with the service, rule, firewall direction and verdict, audit
/// subcategory and pipe of its event appended, in that order.
pub open spec fn enriched_message(m: Seq<char>, sem: EvtxSemantics) -> Seq<char> {
    let m1 = enrich_with(m, "service"@, opt_view(sem.service_name));
    let m2 = enrich_with(m1, "rule"@, opt_view(sem.rule_name));
    let m3 = enrich_with(m2, "direction"@, opt_view(sem.firewall_direction));
    let m4 = enrich_with(m3, "action"@, opt_view(sem.firewall_action));
    let m5 = enrich_with(m4, "audit_subcategory"@, opt_view(sem.audit_subcategory));
    enrich_with(m5, "pipe"@, opt_view(sem.pipe_name))
}

fn enrich_exec(m: &mut Vec<char>, label: &str, v: &Option<String>)
    ensures
        final(m)@ == enrich_with(old(m)@, label@, opt_view(*v)),
{
    match v {
        Some(x) => {
            let xc = chars_of(x.as_str());
            if xc.len() == 0 || crate::text::contains_chars(m.as_slice(), xc.as_slice()) {
                return;
            }
            m.push(' ');
            let lc = chars_of(label);
            push_all(m, lc.as_slice());
            m.push('=');
            let t = crate::textlog::truncated_chars(xc.as_slice(), 120);
            push_all(m, t.as_slice());
        },
        None => {},
    }
}

pub fn enrich_message_with_semantics(message: String, semantics: &EvtxSemantics) -> (r: String)
    ensures
        r@ == enriched_message(message@, *semantics),
{
    let mut m = chars_of(message.as_str());
    enrich_exec(&mut m, "service", &semantics.service_name);
    enrich_exec(&mut m, "rule", &semantics.rule_name);
    enrich_exec(&mut m, "direction", &semantics.firewall_direction);
    enrich_exec(&mut m, "action", &semantics.firewall_action);
    enrich_exec(&mut m, "audit_subcategory", &semantics.audit_subcategory);
    enrich_exec(&mut m, "pipe", &semantics.pipe_name);
    string_from(m.as_slice())
}

} // verus!
