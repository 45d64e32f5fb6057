//! The configuration-bundle text encoder: serializes administrative intents
//! (add / replace / delete a contact) into the line-oriented text grammar
//! carried as the payload of a bundle addressed to the node's administrative
//! endpoint.
//!
//! Grammar, sequential and without whitespace (`[..]` marks an optional
//! part):
//! - add contact: `1(<eid>)[,<reliability>]:(<cla>)<reaches><contacts>;`
//! - replace contact: `2(<eid>)[,<reliability>]<cla-section><reaches><contacts>;`
//! - delete contact: `3(<eid>);`
//!
//! The reaches section is `:[(<eid>),(<eid>)...]` when non-empty and a lone
//! `:` when empty; the contacts section is `:[{<start>,<end>,<rate>},...]`
//! when non-empty and vanishes entirely when empty. Contact times go out as
//! whole seconds since the DTN epoch.

use vstd::prelude::*;
use vstd::string::StrSliceExecFns;
use vstd::string::StringExecFns;
use vstd::utf8::encode_utf8;

verus! {

/// Seconds between the Unix epoch (1970-01-01T00:00:00 UTC) and the DTN
/// epoch (2000-01-01T00:00:00 UTC).
pub const DTN_EPOCH_OFFSET_SECONDS: u64 = 946684800;

/// The literal that stands for an unlimited transmission rate.
pub const UNLIMITED_RATE_LITERAL: u64 = 4294967200;

/// A contact's expected transmission rate.
#[derive(Debug, Clone, Copy, PartialEq, Eq, Structural)]
pub enum ContactDataRate {
    /// Unlimited transmission rate.
    Unlimited,
    /// Limited transmission rate in bytes per second.
    Limited(i32),
}

/// A scheduled time window during which a path to another node is expected
/// to be usable. The bounds are wall-clock times in whole seconds since the
/// Unix epoch.
#[derive(Debug, Clone, Copy, PartialEq, Eq, Structural)]
pub struct Contact {
    /// When this contact will start, in Unix seconds.
    pub start: u64,
    /// When this contact will end, in Unix seconds.
    pub end: u64,
    /// Expected transmission rate.
    pub data_rate: ContactDataRate,
}

/// An administrative intent for the node's contact configuration.
#[derive(Debug, Clone)]
pub enum ConfigBundle {
    /// Add a new available contact.
    AddContact {
        /// EID of the other node in contact.
        eid: String,
        /// Expected likelihood (an integer between 100 and 1000, divided by
        /// 10000) that a future contact with the node will be observed.
        reliability: Option<i32>,
        /// CLA (convergence-layer) address used in this contact, e.g.
        /// `mtcp:127.0.0.1:4223`.
        cla_address: String,
        /// EIDs reachable through this contact.
        reaches_eid: Vec<String>,
        /// Future contact windows of this node.
        contacts: Vec<Contact>,
    },
    /// Replace an existing contact.
    ReplaceContact {
        /// EID of the other node in contact.
        eid: String,
        /// Expected likelihood (an integer between 100 and 1000, divided by
        /// 10000) that a future contact with the node will be observed.
        reliability: Option<i32>,
        /// CLA (convergence-layer) address used in this contact, if it
        /// changes.
        cla_address: Option<String>,
        /// EIDs reachable through this contact.
        reaches_eid: Vec<String>,
        /// Future contact windows of this node.
        contacts: Vec<Contact>,
    },
    /// Delete an existing contact (contact EID).
    DeleteContact(String),
}

/// The mathematical model of a [`ConfigBundle`]: strings as character
/// sequences.
pub enum ConfigModel {
    /// Add a new available contact.
    Add {
        /// EID of the other node.
        eid: Seq<char>,
        /// Expected contact likelihood.
        reliability: Option<i32>,
        /// CLA address.
        cla: Seq<char>,
        /// Reachable EIDs.
        reaches: Seq<Seq<char>>,
        /// Future contact windows.
        contacts: Seq<Contact>,
    },
    /// Replace an existing contact.
    Replace {
        /// EID of the other node.
        eid: Seq<char>,
        /// Expected contact likelihood.
        reliability: Option<i32>,
        /// CLA address, if it changes.
        cla: Option<Seq<char>>,
        /// Reachable EIDs.
        reaches: Seq<Seq<char>>,
        /// Future contact windows.
        contacts: Seq<Contact>,
    },
    /// Delete an existing contact.
    Delete(Seq<char>),
}

impl View for ConfigBundle {
    type V = ConfigModel;

    open spec fn view(&self) -> ConfigModel {
        match self {
            ConfigBundle::AddContact { eid, reliability, cla_address, reaches_eid, contacts } => ConfigModel::Add {
                eid: eid@,
                reliability: *reliability,
                cla: cla_address@,
                reaches: reaches_eid.deep_view(),
                contacts: contacts@,
            },
            ConfigBundle::ReplaceContact {
                eid,
                reliability,
                cla_address,
                reaches_eid,
                contacts,
            } => ConfigModel::Replace {
                eid: eid@,
                reliability: *reliability,
                cla: match cla_address {
                    Some(c) => Some(c@),
                    None => None,
                },
                reaches: reaches_eid.deep_view(),
                contacts: contacts@,
            },
            ConfigBundle::DeleteContact(eid) => ConfigModel::Delete(eid@),
        }
    }
}

/// The decimal digit character for `d`.
pub open spec fn spec_digit(d: int) -> char
    recommends
        0 <= d < 10,
{
    if d == 0 {
        '0'
    } else if d == 1 {
        '1'
    } else if d == 2 {
        '2'
    } else if d == 3 {
        '3'
    } else if d == 4 {
        '4'
    } else if d == 5 {
        '5'
    } else if d == 6 {
        '6'
    } else if d == 7 {
        '7'
    } else if d == 8 {
        '8'
    } else {
        '9'
    }
}

/// The decimal rendering of a non-negative integer, without leading zeros.
pub open spec fn spec_u64_str(n: int) -> Seq<char>
    recommends
        n >= 0,
    decreases n,
{
    if n < 10 {
        seq![spec_digit(n)]
    } else {
        spec_u64_str(n / 10) + seq![spec_digit(n % 10)]
    }
}

/// The decimal rendering of a signed integer: a minus sign before the
/// magnitude when negative.
pub open spec fn spec_i32_str(n: int) -> Seq<char> {
    if n < 0 {
        seq!['-'] + spec_u64_str(-n)
    } else {
        spec_u64_str(n)
    }
}

/// One EID wrapped in parentheses.
pub open spec fn spec_paren_item(s: Seq<char>) -> Seq<char> {
    "("@ + s + ")"@
}

/// A comma-separated list of parenthesized EIDs.
pub open spec fn spec_paren_list(items: Seq<Seq<char>>) -> Seq<char>
    decreases items.len(),
{
    if items.len() == 0 {
        Seq::empty()
    } else if items.len() == 1 {
        spec_paren_item(items[0])
    } else {
        spec_paren_list(items.drop_last()) + ","@ + spec_paren_item(items.last())
    }
}

/// A contact's times render only when they do not precede the DTN epoch.
pub open spec fn wf_contact(c: Contact) -> bool {
    c.start >= DTN_EPOCH_OFFSET_SECONDS && c.end >= DTN_EPOCH_OFFSET_SECONDS
}

/// The rate as it renders: the magic unlimited literal, or the signed rate.
pub open spec fn spec_rate_str(r: ContactDataRate) -> Seq<char> {
    match r {
        ContactDataRate::Unlimited => spec_u64_str(UNLIMITED_RATE_LITERAL as int),
        ContactDataRate::Limited(i) => spec_i32_str(i as int),
    }
}

/// One contact window as it renders: braces around start, end and rate,
/// with the times in whole seconds since the DTN epoch.
pub open spec fn spec_contact_str(c: Contact) -> Seq<char>
    recommends
        wf_contact(c),
{
    "{"@ + spec_u64_str(c.start - DTN_EPOCH_OFFSET_SECONDS) + ","@ + spec_u64_str(
        c.end - DTN_EPOCH_OFFSET_SECONDS,
    ) + ","@ + spec_rate_str(c.data_rate) + "}"@
}

/// A comma-separated list of braced contact windows.
pub open spec fn spec_contact_list(cs: Seq<Contact>) -> Seq<char>
    decreases cs.len(),
{
    if cs.len() == 0 {
        Seq::empty()
    } else if cs.len() == 1 {
        spec_contact_str(cs[0])
    } else {
        spec_contact_list(cs.drop_last()) + ","@ + spec_contact_str(cs.last())
    }
}

/// The reliability segment: omitted entirely when absent.
pub open spec fn spec_reliability_str(r: Option<i32>) -> Seq<char> {
    match r {
        Some(v) => ","@ + spec_i32_str(v as int),
        None => Seq::empty(),
    }
}

/// The reaches section: `:[...]` when non-empty, a lone `:` when empty.
pub open spec fn spec_reaches_section(rs: Seq<Seq<char>>) -> Seq<char> {
    if rs.len() > 0 {
        ":["@ + spec_paren_list(rs) + "]"@
    } else {
        ":"@
    }
}

/// The contacts section: `:[...]` when non-empty, nothing when empty.
pub open spec fn spec_contacts_section(cs: Seq<Contact>) -> Seq<char> {
    if cs.len() > 0 {
        ":["@ + spec_contact_list(cs) + "]"@
    } else {
        Seq::empty()
    }
}

/// The CLA section of a replace command: `:(<cla>)` when present, a lone
/// `:` when absent.
pub open spec fn spec_cla_section(c: Option<Seq<char>>) -> Seq<char> {
    match c {
        Some(s) => ":("@ + s + ")"@,
        None => ":"@,
    }
}

/// Every contact window in the bundle lies at or after the DTN epoch, so
/// every rendered time is a non-negative count of seconds.
pub open spec fn wf_config(c: ConfigModel) -> bool {
    match c {
        ConfigModel::Add { contacts, .. } => forall|i: int|
            0 <= i < contacts.len() ==> wf_contact(#[trigger] contacts[i]),
        ConfigModel::Replace { contacts, .. } => forall|i: int|
            0 <= i < contacts.len() ==> wf_contact(#[trigger] contacts[i]),
        ConfigModel::Delete(_) => true,
    }
}

/// The exact text that serializing a configuration bundle produces.
pub open spec fn spec_config_str(c: ConfigModel) -> Seq<char>
    recommends
        wf_config(c),
{
    match c {
        ConfigModel::Add { eid, reliability, cla, reaches, contacts } => "1("@ + eid + ")"@
            + spec_reliability_str(reliability) + ":("@ + cla + ")"@ + spec_reaches_section(reaches)
            + spec_contacts_section(contacts) + ";"@,
        ConfigModel::Replace { eid, reliability, cla, reaches, contacts } => "2("@ + eid + ")"@
            + spec_reliability_str(reliability) + spec_cla_section(cla) + spec_reaches_section(
            reaches,
        ) + spec_contacts_section(contacts) + ";"@,
        ConfigModel::Delete(eid) => "3("@ + eid + ");"@,
    }
}

/// The decimal digit `d` as a one-character string slice.
fn digit_str(d: u64) -> (r: &'static str)
    requires
        d < 10,
    ensures
        r@ == seq![spec_digit(d as int)],
{
    proof {
        reveal_strlit("0");
        reveal_strlit("1");
        reveal_strlit("2");
        reveal_strlit("3");
        reveal_strlit("4");
        reveal_strlit("5");
        reveal_strlit("6");
        reveal_strlit("7");
        reveal_strlit("8");
        reveal_strlit("9");
    }
    let r = if d == 0 {
        "0"
    } else if d == 1 {
        "1"
    } else if d == 2 {
        "2"
    } else if d == 3 {
        "3"
    } else if d == 4 {
        "4"
    } else if d == 5 {
        "5"
    } else if d == 6 {
        "6"
    } else if d == 7 {
        "7"
    } else if d == 8 {
        "8"
    } else {
        "9"
    };
    proof {
        assert(r@ =~= seq![spec_digit(d as int)]);
    }
    r
}

/// Render `n` in decimal.
fn u64_str(n: u64) -> (s: String)
    ensures
        s@ == spec_u64_str(n as int),
    decreases n,
{
    if n < 10 {
        let mut s = String::new();
        s.append(digit_str(n));
        proof {
            assert(s@ =~= spec_u64_str(n as int));
        }
        s
    } else {
        let mut s = u64_str(n / 10);
        s.append(digit_str(n % 10));
        s
    }
}

/// Render `v` in decimal, with a minus sign when negative.
fn i32_str(v: i32) -> (s: String)
    ensures
        s@ == spec_i32_str(v as int),
{
    if v < 0 {
        proof {
            reveal_strlit("-");
        }
        let mut s = String::new();
        s.append("-");
        let magnitude: u64 = (-(v as i64)) as u64;
        let tail = u64_str(magnitude);
        s.append(tail.as_str());
        proof {
            assert("-"@ =~= seq!['-']);
            assert(s@ =~= spec_i32_str(v as int));
        }
        s
    } else {
        u64_str(v as u64)
    }
}

/// Walking a list from the front agrees with the model's from-the-back
/// definition, one element at a time.
proof fn lemma_paren_list_step(v: Seq<Seq<char>>, i: int)
    requires
        0 <= i < v.len(),
    ensures
        spec_paren_list(v.take(i + 1)) == if i == 0 {
            spec_paren_item(v[0])
        } else {
            spec_paren_list(v.take(i)) + ","@ + spec_paren_item(v[i])
        },
{
    assert(v.take(i + 1).drop_last() =~= v.take(i));
    assert(v.take(i + 1).last() == v[i]);
}

/// Walking a contact list from the front agrees with the model's
/// from-the-back definition, one element at a time.
proof fn lemma_contact_list_step(v: Seq<Contact>, i: int)
    requires
        0 <= i < v.len(),
    ensures
        spec_contact_list(v.take(i + 1)) == if i == 0 {
            spec_contact_str(v[0])
        } else {
            spec_contact_list(v.take(i)) + ","@ + spec_contact_str(v[i])
        },
{
    assert(v.take(i + 1).drop_last() =~= v.take(i));
    assert(v.take(i + 1).last() == v[i]);
}

/// Render a comma-separated list of parenthesized EIDs.
fn paren_list(items: &Vec<String>) -> (s: String)
    ensures
        s@ == spec_paren_list(items.deep_view()),
{
    let ghost v = items.deep_view();
    let mut s = String::new();
    let mut i: usize = 0;
    while i < items.len()
        invariant
            0 <= i <= items.len(),
            v == items.deep_view(),
            v.len() == items.len(),
            s@ == spec_paren_list(v.take(i as int)),
        decreases items.len() - i,
    {
        if i > 0 {
            s.append(",");
        }
        s.append("(");
        s.append(items[i].as_str());
        s.append(")");
        proof {
            lemma_paren_list_step(v, i as int);
            assert(v[i as int] == items@[i as int]@);
            assert(s@ =~= spec_paren_list(v.take(i as int + 1)));
        }
        i = i + 1;
    }
    proof {
        assert(v.take(items.len() as int) =~= v);
    }
    s
}

/// Render one contact window.
fn contact_str(c: &Contact) -> (s: String)
    requires
        wf_contact(*c),
    ensures
        s@ == spec_contact_str(*c),
{
    let mut s = String::new();
    s.append("{");
    let start = u64_str(c.start - DTN_EPOCH_OFFSET_SECONDS);
    s.append(start.as_str());
    s.append(",");
    let end = u64_str(c.end - DTN_EPOCH_OFFSET_SECONDS);
    s.append(end.as_str());
    s.append(",");
    match c.data_rate {
        ContactDataRate::Unlimited => {
            let rate = u64_str(UNLIMITED_RATE_LITERAL);
            s.append(rate.as_str());
        },
        ContactDataRate::Limited(i) => {
            let rate = i32_str(i);
            s.append(rate.as_str());
        },
    }
    s.append("}");
    proof {
        assert(s@ =~= spec_contact_str(*c));
    }
    s
}

/// Render a comma-separated list of contact windows.
fn contact_list(items: &Vec<Contact>) -> (s: String)
    requires
        forall|i: int| 0 <= i < items@.len() ==> wf_contact(#[trigger] items@[i]),
    ensures
        s@ == spec_contact_list(items@),
{
    let mut s = String::new();
    let mut i: usize = 0;
    while i < items.len()
        invariant
            0 <= i <= items.len(),
            forall|j: int| 0 <= j < items@.len() ==> wf_contact(#[trigger] items@[j]),
            s@ == spec_contact_list(items@.take(i as int)),
        decreases items.len() - i,
    {
        if i > 0 {
            s.append(",");
        }
        let one = contact_str(&items[i]);
        s.append(one.as_str());
        proof {
            lemma_contact_list_step(items@, i as int);
            assert(s@ =~= spec_contact_list(items@.take(i as int + 1)));
        }
        i = i + 1;
    }
    proof {
        assert(items@.take(items@.len() as int) =~= items@);
    }
    s
}

impl ConfigBundle {
    /// Serialize this configuration bundle as text, following the grammar
    /// in the module documentation.
    #[verifier::rlimit(80)]
    pub fn to_string(&self) -> (s: String)
        requires
            wf_config(self@),
        ensures
            s@ == spec_config_str(self@),
    {
        match self {
            ConfigBundle::AddContact { eid, reliability, cla_address, reaches_eid, contacts } => {
                let mut s = String::new();
                s.append("1(");
                s.append(eid.as_str());
                s.append(")");
                match reliability {
                    Some(r) => {
                        s.append(",");
                        let rel = i32_str(*r);
                        s.append(rel.as_str());
                    },
                    None => {},
                }
                s.append(":(");
                s.append(cla_address.as_str());
                s.append(")");
                if reaches_eid.len() > 0 {
                    s.append(":[");
                    let list = paren_list(reaches_eid);
                    s.append(list.as_str());
                    s.append("]");
                } else {
                    s.append(":");
                }
                if contacts.len() > 0 {
                    s.append(":[");
                    proof {
                        assert(forall|j: int|
                            0 <= j < contacts@.len() ==> wf_contact(#[trigger] contacts@[j]));
                    }
                    let list = contact_list(contacts);
                    s.append(list.as_str());
                    s.append("]");
                }
                s.append(";");
                proof {
                    assert(s@ =~= spec_config_str(self@));
                }
                s
            },
            ConfigBundle::ReplaceContact {
                eid,
                reliability,
                cla_address,
                reaches_eid,
                contacts,
            } => {
                let mut s = String::new();
                s.append("2(");
                s.append(eid.as_str());
                s.append(")");
                match reliability {
                    Some(r) => {
                        s.append(",");
                        let rel = i32_str(*r);
                        s.append(rel.as_str());
                    },
                    None => {},
                }
                match cla_address {
                    Some(cla) => {
                        s.append(":(");
                        s.append(cla.as_str());
                        s.append(")");
                    },
                    None => {
                        s.append(":");
                    },
                }
                if reaches_eid.len() > 0 {
                    s.append(":[");
                    let list = paren_list(reaches_eid);
                    s.append(list.as_str());
                    s.append("]");
                } else {
                    s.append(":");
                }
                if contacts.len() > 0 {
                    s.append(":[");
                    proof {
                        assert(self@ matches ConfigModel::Replace { contacts: cs, .. }
                            && cs == contacts@);
                        assert(forall|j: int|
                            0 <= j < contacts@.len() ==> wf_contact(#[trigger] contacts@[j]));
                    }
                    let list = contact_list(contacts);
                    s.append(list.as_str());
                    s.append("]");
                }
                s.append(";");
                proof {
                    assert(s@ =~= spec_config_str(self@));
                }
                s
            },
            ConfigBundle::DeleteContact(eid) => {
                let mut s = String::new();
                s.append("3(");
                s.append(eid.as_str());
                s.append(");");
                proof {
                    assert(s@ =~= spec_config_str(self@));
                }
                s
            },
        }
    }

    /// Serialize this configuration bundle as the bytes to carry in a
    /// bundle payload: the UTF-8 encoding of its text form.
    pub fn to_bytes(&self) -> (r: Vec<u8>)
        requires
            wf_config(self@),
        ensures
            r@ == encode_utf8(spec_config_str(self@)),
    {
        let s = self.to_string();
        s.as_str().as_bytes_vec()
    }
}

} // verus!
