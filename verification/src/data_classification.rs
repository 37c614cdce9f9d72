//! Data classification policy contracts for write authorization and status reporting.
//!
//! Levels are ordered Public < Internal < Sensitive < Restricted. A policy
//! gives each write domain a minimum level and may require tags per level;
//! a later entry for the same domain or level replaces an earlier one. Tag
//! sets are compared as sets and reported in sorted order.
use vstd::prelude::*;
use crate::did::{agent_did_error_text, agent_did_valid, AgentDid};
use crate::sorting::{lemma_str_leq_total, sort_strings, str_leq};
use crate::text::{
    copy_strings, is_blank, is_blank_seq, join_seqs, join_strings, lex_lt, str_eq, str_views, strictly_sorted,
};

verus! {

/// Ordered classification level applied to domain writes.
#[derive(Debug, Clone, Copy, PartialEq, Eq, Structural, PartialOrd, Ord, Hash)]
pub enum DataClassificationLevel {
    Public,
    Internal,
    Sensitive,
    Restricted,
}

/// Write domain used for minimum classification policy lookup.
#[derive(Debug, Clone, Copy, PartialEq, Eq, Structural, PartialOrd, Ord, Hash)]
pub enum WriteDomain {
    Messages,
    Tasks,
    Escrows,
    Reputation,
}

/// Classification policy: minimum level per write domain, required tags per level.
#[derive(Debug, Clone, PartialEq, Eq)]
pub struct ClassificationPolicy {
    pub minimum_by_domain: Vec<(WriteDomain, DataClassificationLevel)>,
    pub required_tags_by_level: Vec<(DataClassificationLevel, Vec<String>)>,
}

/// Classification label and tags attached to a write request.
#[derive(Debug, Clone, PartialEq, Eq)]
pub struct WriteTag {
    pub level: DataClassificationLevel,
    /// Governance/compliance tags, taken as a set.
    pub tags: Vec<String>,
}

/// Context describing a pending write authorization request.
#[derive(Debug, Clone, PartialEq, Eq)]
pub struct WriteRequestContext {
    pub domain: WriteDomain,
    pub record_id: String,
    pub actor: String,
    pub tag: WriteTag,
}

/// Derived classification status for a given record/tag pairing.
#[derive(Debug, Clone, PartialEq, Eq)]
pub struct ClassificationStatus {
    pub domain: WriteDomain,
    pub record_id: String,
    pub minimum_level: DataClassificationLevel,
    pub provided_level: DataClassificationLevel,
    /// Required tags absent from the write, sorted and without repeats.
    pub missing_tags: Vec<String>,
    pub authorized: bool,
}

/// Data classification engine error taxonomy.
#[derive(Debug, Clone, PartialEq, Eq)]
pub enum DataClassificationError {
    InvalidPolicy(String),
    EmptyField(&'static str),
    InvalidTag(String),
    InvalidDid(String),
    MissingRequiredTags { level: DataClassificationLevel, missing: Vec<String> },
    ClassificationBelowDomainMinimum {
        domain: WriteDomain,
        required: DataClassificationLevel,
        provided: DataClassificationLevel,
    },
    UntaggedSensitiveWrite(String),
}

// ---------------------------------------------------------------------------
// Model
// ---------------------------------------------------------------------------

/// Position of a level in the order Public < Internal < Sensitive < Restricted.
pub open spec fn level_rank(l: DataClassificationLevel) -> nat {
    match l {
        DataClassificationLevel::Public => 0,
        DataClassificationLevel::Internal => 1,
        DataClassificationLevel::Sensitive => 2,
        DataClassificationLevel::Restricted => 3,
    }
}

/// The minimum configured for `d`: its last entry, if any.
pub open spec fn configured_minimum(
    entries: Seq<(WriteDomain, DataClassificationLevel)>,
    d: WriteDomain,
) -> Option<DataClassificationLevel>
    decreases entries.len(),
{
    if entries.len() == 0 {
        None
    } else if entries.last().0 == d {
        Some(entries.last().1)
    } else {
        configured_minimum(entries.drop_last(), d)
    }
}

/// The minimum level in force for `d` (Public when none is configured).
pub open spec fn minimum_level(entries: Seq<(WriteDomain, DataClassificationLevel)>, d: WriteDomain) -> DataClassificationLevel {
    match configured_minimum(entries, d) {
        Some(l) => l,
        None => DataClassificationLevel::Public,
    }
}

/// The tags required at level `l`: those of its last entry, if any.
pub open spec fn required_tags(
    entries: Seq<(DataClassificationLevel, Vec<String>)>,
    l: DataClassificationLevel,
) -> Option<Seq<Seq<char>>>
    decreases entries.len(),
{
    if entries.len() == 0 {
        None
    } else if entries.last().0 == l {
        Some(str_views(entries.last().1@))
    } else {
        required_tags(entries.drop_last(), l)
    }
}

/// The first blank entry.
pub open spec fn first_blank(s: Seq<Seq<char>>) -> Option<Seq<char>>
    decreases s.len(),
{
    if s.len() == 0 {
        None
    } else if is_blank_seq(s[0]) {
        Some(s[0])
    } else {
        first_blank(s.drop_first())
    }
}

/// The least blank tag in std's string order, if any.
pub open spec fn least_blank_tag(tags: Seq<Seq<char>>) -> Option<Seq<char>> {
    first_blank(tags.sort_by(str_leq()))
}

/// The blank tag that policy validation reports at level `l`.
pub open spec fn level_tag_fault(entries: Seq<(DataClassificationLevel, Vec<String>)>, l: DataClassificationLevel) -> Option<Seq<char>> {
    match required_tags(entries, l) {
        Some(t) => least_blank_tag(t),
        None => None,
    }
}

/// The blank required tag that policy validation reports, levels in order.
pub open spec fn policy_tag_fault(entries: Seq<(DataClassificationLevel, Vec<String>)>) -> Option<Seq<char>> {
    if level_tag_fault(entries, DataClassificationLevel::Public) is Some {
        level_tag_fault(entries, DataClassificationLevel::Public)
    } else if level_tag_fault(entries, DataClassificationLevel::Internal) is Some {
        level_tag_fault(entries, DataClassificationLevel::Internal)
    } else if level_tag_fault(entries, DataClassificationLevel::Sensitive) is Some {
        level_tag_fault(entries, DataClassificationLevel::Sensitive)
    } else {
        level_tag_fault(entries, DataClassificationLevel::Restricted)
    }
}

/// The first domain, in declaration order, without a configured minimum.
pub open spec fn first_unconfigured_domain(entries: Seq<(WriteDomain, DataClassificationLevel)>) -> Option<WriteDomain> {
    if configured_minimum(entries, WriteDomain::Messages) is None {
        Some(WriteDomain::Messages)
    } else if configured_minimum(entries, WriteDomain::Tasks) is None {
        Some(WriteDomain::Tasks)
    } else if configured_minimum(entries, WriteDomain::Escrows) is None {
        Some(WriteDomain::Escrows)
    } else if configured_minimum(entries, WriteDomain::Reputation) is None {
        Some(WriteDomain::Reputation)
    } else {
        None
    }
}

/// The domain's name as written in messages.
pub open spec fn domain_name(d: WriteDomain) -> Seq<char> {
    match d {
        WriteDomain::Messages => "Messages"@,
        WriteDomain::Tasks => "Tasks"@,
        WriteDomain::Escrows => "Escrows"@,
        WriteDomain::Reputation => "Reputation"@,
    }
}

/// The level's name as written in messages.
pub open spec fn level_name(l: DataClassificationLevel) -> Seq<char> {
    match l {
        DataClassificationLevel::Public => "Public"@,
        DataClassificationLevel::Internal => "Internal"@,
        DataClassificationLevel::Sensitive => "Sensitive"@,
        DataClassificationLevel::Restricted => "Restricted"@,
    }
}

/// The state-key namespace of a domain.
pub open spec fn domain_namespace(d: WriteDomain) -> Seq<char> {
    match d {
        WriteDomain::Messages => "kamn.messages"@,
        WriteDomain::Tasks => "kamn.tasks"@,
        WriteDomain::Escrows => "kamn.escrows"@,
        WriteDomain::Reputation => "kamn.reputation"@,
    }
}

/// `namespace:kind:key`.
pub open spec fn state_key_text(namespace: Seq<char>, kind: Seq<char>, key: Seq<char>) -> Seq<char> {
    namespace + ":"@ + kind + ":"@ + key
}

/// Sensitive or restricted writes must carry at least one tag.
pub open spec fn untagged_sensitive(tag: WriteTag) -> bool {
    level_rank(tag.level) >= 2 && tag.tags@.len() == 0
}

/// Required tags at the write's level that the write does not carry.
pub open spec fn missing_set(entries: Seq<(DataClassificationLevel, Vec<String>)>, tag: WriteTag) -> Set<Seq<char>> {
    match required_tags(entries, tag.level) {
        Some(r) => r.to_set().difference(str_views(tag.tags@).to_set()),
        None => Set::empty(),
    }
}

/// `v` lists the set `s` in increasing order, once each.
pub open spec fn lists_set(v: Seq<String>, s: Set<Seq<char>>) -> bool {
    strictly_sorted(str_views(v)) && str_views(v).to_set() == s
}

/// The record id and tags pass validation.
pub open spec fn write_tag_acceptable(record_id: Seq<char>, tag: WriteTag) -> bool {
    !is_blank_seq(record_id) && least_blank_tag(str_views(tag.tags@)) is None && !untagged_sensitive(tag)
}

/// The classification level and tags satisfy the policy for `domain`.
pub open spec fn classification_satisfied(
    minimums: Seq<(WriteDomain, DataClassificationLevel)>,
    required: Seq<(DataClassificationLevel, Vec<String>)>,
    domain: WriteDomain,
    tag: WriteTag,
) -> bool {
    level_rank(tag.level) >= level_rank(minimum_level(minimums, domain)) && missing_set(required, tag)
        == Set::<Seq<char>>::empty()
}

/// Everything but the actor's DID permits the write.
pub open spec fn write_permitted(
    minimums: Seq<(WriteDomain, DataClassificationLevel)>,
    required: Seq<(DataClassificationLevel, Vec<String>)>,
    domain: WriteDomain,
    record_id: Seq<char>,
    tag: WriteTag,
) -> bool {
    write_tag_acceptable(record_id, tag) && classification_satisfied(minimums, required, domain, tag)
}

/// Status and authorization agree: a write is authorized (for a valid
/// actor) exactly when its status can be computed, which needs an acceptable
/// tag, and reports it authorized; the verdict is the domain minimum and the
/// required tags being met.
pub proof fn lemma_status_agrees_with_authorization(
    minimums: Seq<(WriteDomain, DataClassificationLevel)>,
    required: Seq<(DataClassificationLevel, Vec<String>)>,
    domain: WriteDomain,
    record_id: Seq<char>,
    tag: WriteTag,
)
    ensures
        write_permitted(minimums, required, domain, record_id, tag) ==> write_tag_acceptable(record_id, tag),
        write_tag_acceptable(record_id, tag) ==> (write_permitted(minimums, required, domain, record_id, tag)
            <==> classification_satisfied(minimums, required, domain, tag)),
{
}

// ---------------------------------------------------------------------------
// Executable helpers
// ---------------------------------------------------------------------------

fn level_rank_of(l: DataClassificationLevel) -> (r: u8)
    ensures
        r == level_rank(l),
{
    match l {
        DataClassificationLevel::Public => 0,
        DataClassificationLevel::Internal => 1,
        DataClassificationLevel::Sensitive => 2,
        DataClassificationLevel::Restricted => 3,
    }
}

fn lookup_minimum(entries: &Vec<(WriteDomain, DataClassificationLevel)>, d: WriteDomain) -> (r: Option<
    DataClassificationLevel,
>)
    ensures
        r == configured_minimum(entries@, d),
{
    let mut i: usize = entries.len();
    assert(entries@.take(entries@.len() as int) =~= entries@);
    while i > 0
        invariant
            i <= entries@.len(),
            configured_minimum(entries@, d) == configured_minimum(entries@.take(i as int), d),
        decreases i,
    {
        let ghost pre = entries@.take(i as int);
        proof {
            assert(pre.drop_last() =~= entries@.take(i - 1));
            assert(pre.last() == entries@[i - 1]);
        }
        if entries[i - 1].0 == d {
            return Some(entries[i - 1].1);
        }
        i = i - 1;
    }
    None
}

fn lookup_required<'a>(entries: &'a Vec<(DataClassificationLevel, Vec<String>)>, l: DataClassificationLevel) -> (r: Option<
    &'a Vec<String>,
>)
    ensures
        r is Some <==> required_tags(entries@, l) is Some,
        r matches Some(v) ==> required_tags(entries@, l) == Some(str_views(v@)),
{
    let mut i: usize = entries.len();
    assert(entries@.take(entries@.len() as int) =~= entries@);
    while i > 0
        invariant
            i <= entries@.len(),
            required_tags(entries@, l) == required_tags(entries@.take(i as int), l),
        decreases i,
    {
        let ghost pre = entries@.take(i as int);
        proof {
            assert(pre.drop_last() =~= entries@.take(i - 1));
            assert(pre.last() == entries@[i - 1]);
        }
        if entries[i - 1].0 == l {
            return Some(&entries[i - 1].1);
        }
        i = i - 1;
    }
    None
}

/// The least blank tag, if any.
fn find_least_blank(tags: &Vec<String>) -> (r: Option<String>)
    ensures
        r is Some <==> least_blank_tag(str_views(tags@)) is Some,
        r matches Some(t) ==> least_blank_tag(str_views(tags@)) == Some(t@),
{
    proof {
        lemma_str_leq_total();
    }
    let sorted = sort_strings(copy_strings(tags));
    let ghost sv = str_views(sorted@);
    assert(sv == str_views(tags@).sort_by(str_leq()));
    let mut i: usize = 0;
    assert(sv.skip(0) =~= sv);
    while i < sorted.len()
        invariant
            i <= sorted@.len(),
            sv == str_views(sorted@),
            sv == str_views(tags@).sort_by(str_leq()),
            first_blank(sv) == first_blank(sv.skip(i as int)),
        decreases sorted@.len() - i,
    {
        proof {
            assert(sv.skip(i as int)[0] == sorted@[i as int]@);
            assert(sv.skip(i as int).drop_first() =~= sv.skip(i + 1));
        }
        if is_blank(sorted[i].as_str()) {
            proof {
                assert(first_blank(sv.skip(i as int)) == Some(sorted@[i as int]@));
            }
            return Some(sorted[i].clone());
        }
        i = i + 1;
    }
    proof {
        assert(sv.skip(i as int).len() == 0);
    }
    None
}

fn contains_str(v: &Vec<String>, s: &str) -> (r: bool)
    ensures
        r == str_views(v@).contains(s@),
{
    let mut i: usize = 0;
    while i < v.len()
        invariant
            i <= v@.len(),
            forall|k: int| 0 <= k < i ==> v@[k]@ != s@,
        decreases v@.len() - i,
    {
        if str_eq(v[i].as_str(), s) {
            proof {
                assert(str_views(v@)[i as int] == s@);
            }
            return true;
        }
        i = i + 1;
    }
    proof {
        if str_views(v@).contains(s@) {
            let k = choose|k: int| 0 <= k < str_views(v@).len() && str_views(v@)[k] == s@;
            assert(v@[k]@ == s@);
        }
    }
    false
}

/// The tags of `required` absent from `provided`, sorted, once each.
fn missing_tags(required: &Vec<String>, provided: &Vec<String>) -> (r: Vec<String>)
    ensures
        lists_set(r@, str_views(required@).to_set().difference(str_views(provided@).to_set())),
{
    proof {
        lemma_str_leq_total();
        str_views(required@).lemma_sort_by_ensures(str_leq());
    }
    let sorted = sort_strings(copy_strings(required));
    let ghost sv = str_views(sorted@);
    let ghost target = str_views(required@).to_set().difference(str_views(provided@).to_set());
    proof {
        assert forall|x: Seq<char>| sv.contains(x) <==> str_views(required@).contains(x) by {
            vstd::seq_lib::to_multiset_contains(sv, x);
            vstd::seq_lib::to_multiset_contains(str_views(required@), x);
        }
    }
    let mut out: Vec<String> = Vec::new();
    let mut i: usize = 0;
    while i < sorted.len()
        invariant
            i <= sorted@.len(),
            sv == str_views(sorted@),
            vstd::relations::sorted_by(sv, str_leq()),
            strictly_sorted(str_views(out@)),
            str_views(out@).to_set() == sv.take(i as int).to_set().difference(str_views(provided@).to_set()),
            out@.len() > 0 ==> i > 0 && exists|k: int| 0 <= k < i && sv[k] == str_views(out@).last(),
        decreases sorted@.len() - i,
    {
        let ghost before = str_views(out@);
        let x = &sorted[i];
        proof {
            assert(sv[i as int] == x@);
            assert(sv.take(i + 1) =~= sv.take(i as int).push(x@));
            sv.take(i as int).lemma_push_to_set_commute(x@);
        }
        if !contains_str(provided, x.as_str()) {
            let fresh = out.len() == 0 || !str_eq(out[out.len() - 1].as_str(), x.as_str());
            if fresh {
                proof {
                    if before.len() > 0 {
                        let k = choose|k: int| 0 <= k < i && sv[k] == before.last();
                        assert(str_leq()(sv[k], sv[i as int]));
                    }
                }
                out.push(x.clone());
                proof {
                    assert(str_views(out@) =~= before.push(x@));
                    before.lemma_push_to_set_commute(x@);
                    assert forall|a: int, b: int| 0 <= a < b < str_views(out@).len() implies lex_lt(
                        #[trigger] str_views(out@)[a],
                        #[trigger] str_views(out@)[b],
                    ) by {
                        if b == before.len() && a < before.len() - 1 {
                            assert(lex_lt(before[a], before.last()));
                            crate::text::lemma_lex_transitive(before[a], before.last(), x@);
                        }
                    }
                    assert(str_views(out@).to_set() =~= sv.take(i + 1).to_set().difference(
                        str_views(provided@).to_set(),
                    ));
                }
            } else {
                proof {
                    assert(before.last() == x@);
                    assert(str_views(out@).to_set() =~= sv.take(i + 1).to_set().difference(
                        str_views(provided@).to_set(),
                    ));
                }
            }
        } else {
            proof {
                assert(str_views(out@).to_set() =~= sv.take(i + 1).to_set().difference(
                    str_views(provided@).to_set(),
                ));
            }
        }
        i = i + 1;
    }
    proof {
        assert(sv.take(i as int) =~= sv);
        assert(sv.to_set() =~= str_views(required@).to_set());
        assert(str_views(out@).to_set() =~= target);
    }
    out
}

fn domain_name_str(d: WriteDomain) -> (r: &'static str)
    ensures
        r@ == domain_name(d),
{
    match d {
        WriteDomain::Messages => "Messages",
        WriteDomain::Tasks => "Tasks",
        WriteDomain::Escrows => "Escrows",
        WriteDomain::Reputation => "Reputation",
    }
}

fn level_name_str(l: DataClassificationLevel) -> (r: &'static str)
    ensures
        r@ == level_name(l),
{
    match l {
        DataClassificationLevel::Public => "Public",
        DataClassificationLevel::Internal => "Internal",
        DataClassificationLevel::Sensitive => "Sensitive",
        DataClassificationLevel::Restricted => "Restricted",
    }
}

fn namespace_for_domain(d: WriteDomain) -> (r: &'static str)
    ensures
        r@ == domain_namespace(d),
{
    match d {
        WriteDomain::Messages => "kamn.messages",
        WriteDomain::Tasks => "kamn.tasks",
        WriteDomain::Escrows => "kamn.escrows",
        WriteDomain::Reputation => "kamn.reputation",
    }
}

/// `namespace:kind:key`.
pub fn canonical_state_key(namespace: &str, kind: &str, key: &str) -> (r: String)
    ensures
        r@ == state_key_text(namespace@, kind@, key@),
{
    let mut out = namespace.to_owned();
    out.append(":");
    out.append(kind);
    out.append(":");
    out.append(key);
    out
}

/// Engine that validates data classification constraints for writes.
#[derive(Debug, Clone, PartialEq, Eq)]
pub struct DataClassificationEngine {
    policy: ClassificationPolicy,
}

impl DataClassificationEngine {
    /// The policy's domain minimums.
    pub closed spec fn minimums(&self) -> Seq<(WriteDomain, DataClassificationLevel)> {
        self.policy.minimum_by_domain@
    }

    /// The policy's required tags per level.
    pub closed spec fn required(&self) -> Seq<(DataClassificationLevel, Vec<String>)> {
        self.policy.required_tags_by_level@
    }

    /// Constructs a classification engine from a policy that configures every
    /// domain's minimum and requires no blank tag.
    pub fn new(policy: ClassificationPolicy) -> (r: Result<Self, DataClassificationError>)
        ensures
            first_unconfigured_domain(policy.minimum_by_domain@) matches Some(d) ==> (r matches Err(e)
                && e matches DataClassificationError::InvalidPolicy(m) && m@
                == "missing minimum classification for domain "@ + domain_name(d)),
            first_unconfigured_domain(policy.minimum_by_domain@) is None ==> (policy_tag_fault(
                policy.required_tags_by_level@,
            ) matches Some(t) ==> (r matches Err(e) && e matches DataClassificationError::InvalidTag(v) && v@ == t)),
            first_unconfigured_domain(policy.minimum_by_domain@) is None && policy_tag_fault(
                policy.required_tags_by_level@,
            ) is None ==> (r matches Ok(eng) && eng.minimums() == policy.minimum_by_domain@ && eng.required()
                == policy.required_tags_by_level@),
    {
        let domains = [WriteDomain::Messages, WriteDomain::Tasks, WriteDomain::Escrows, WriteDomain::Reputation];
        let mut i: usize = 0;
        while i < 4
            invariant
                i <= 4,
                domains@ == seq![WriteDomain::Messages, WriteDomain::Tasks, WriteDomain::Escrows, WriteDomain::Reputation],
                forall|k: int| 0 <= k < i ==> configured_minimum(policy.minimum_by_domain@, #[trigger] domains@[k]) is Some,
            decreases 4 - i,
        {
            let d = domains[i];
            if lookup_minimum(&policy.minimum_by_domain, d).is_none() {
                let mut message = "missing minimum classification for domain ".to_owned();
                message.append(domain_name_str(d));
                proof {
                    assert(i == 0 ==> domains@[0] == WriteDomain::Messages);
                }
                return Err(DataClassificationError::InvalidPolicy(message));
            }
            i = i + 1;
        }
        proof {
            assert(configured_minimum(policy.minimum_by_domain@, domains@[0]) is Some);
            assert(configured_minimum(policy.minimum_by_domain@, domains@[1]) is Some);
            assert(configured_minimum(policy.minimum_by_domain@, domains@[2]) is Some);
            assert(configured_minimum(policy.minimum_by_domain@, domains@[3]) is Some);
        }
        let levels = [
            DataClassificationLevel::Public,
            DataClassificationLevel::Internal,
            DataClassificationLevel::Sensitive,
            DataClassificationLevel::Restricted,
        ];
        let mut j: usize = 0;
        while j < 4
            invariant
                j <= 4,
                levels@ == seq![
                    DataClassificationLevel::Public,
                    DataClassificationLevel::Internal,
                    DataClassificationLevel::Sensitive,
                    DataClassificationLevel::Restricted,
                ],
                first_unconfigured_domain(policy.minimum_by_domain@) is None,
                forall|k: int| 0 <= k < j ==> level_tag_fault(policy.required_tags_by_level@, #[trigger] levels@[k]) is None,
            decreases 4 - j,
        {
            let l = levels[j];
            match lookup_required(&policy.required_tags_by_level, l) {
                Some(tags) => {
                    match find_least_blank(tags) {
                        Some(t) => {
                            proof {
                                assert(j >= 1 ==> level_tag_fault(policy.required_tags_by_level@, levels@[0]) is None);
                                assert(j >= 2 ==> level_tag_fault(policy.required_tags_by_level@, levels@[1]) is None);
                                assert(j >= 3 ==> level_tag_fault(policy.required_tags_by_level@, levels@[2]) is None);
                            }
                            return Err(DataClassificationError::InvalidTag(t));
                        },
                        None => {},
                    }
                },
                None => {},
            }
            j = j + 1;
        }
        proof {
            assert(level_tag_fault(policy.required_tags_by_level@, levels@[0]) is None);
            assert(level_tag_fault(policy.required_tags_by_level@, levels@[1]) is None);
            assert(level_tag_fault(policy.required_tags_by_level@, levels@[2]) is None);
            assert(level_tag_fault(policy.required_tags_by_level@, levels@[3]) is None);
        }
        Ok(DataClassificationEngine { policy })
    }

    fn minimum_for(&self, domain: WriteDomain) -> (r: DataClassificationLevel)
        ensures
            r == minimum_level(self.minimums(), domain),
    {
        match lookup_minimum(&self.policy.minimum_by_domain, domain) {
            Some(l) => l,
            None => DataClassificationLevel::Public,
        }
    }

    fn validate_write_tag(&self, record_id: &str, tag: &WriteTag) -> (r: Result<(), DataClassificationError>)
        ensures
            least_blank_tag(str_views(tag.tags@)) matches Some(t) ==> (r matches Err(e)
                && e matches DataClassificationError::InvalidTag(v) && v@ == t),
            least_blank_tag(str_views(tag.tags@)) is None && untagged_sensitive(*tag) ==> (r matches Err(e)
                && e matches DataClassificationError::UntaggedSensitiveWrite(id) && id@ == record_id@),
            least_blank_tag(str_views(tag.tags@)) is None && !untagged_sensitive(*tag) ==> r is Ok,
    {
        match find_least_blank(&tag.tags) {
            Some(t) => {
                return Err(DataClassificationError::InvalidTag(t));
            },
            None => {},
        }
        if level_rank_of(tag.level) >= 2 && tag.tags.len() == 0 {
            return Err(DataClassificationError::UntaggedSensitiveWrite(record_id.to_owned()));
        }
        Ok(())
    }

    fn missing_required_tags(&self, tag: &WriteTag) -> (r: Vec<String>)
        ensures
            lists_set(r@, missing_set(self.required(), *tag)),
    {
        match lookup_required(&self.policy.required_tags_by_level, tag.level) {
            Some(required) => missing_tags(required, &tag.tags),
            None => {
                let v: Vec<String> = Vec::new();
                proof {
                    assert(str_views(v@).to_set() =~= Set::<Seq<char>>::empty());
                }
                v
            },
        }
    }

    /// Authorizes a write request and returns its canonical state key.
    /// Checks, in order: record id, actor DID, tags, domain minimum, required tags.
    pub fn authorize_write(&mut self, context: &WriteRequestContext) -> (r: Result<String, DataClassificationError>)
        ensures
            *final(self) == *old(self),
            is_blank_seq(context.record_id@) ==> r == Err::<String, _>(DataClassificationError::EmptyField("record_id")),
            !is_blank_seq(context.record_id@) && !agent_did_valid(context.actor@) ==> (r matches Err(e)
                && e matches DataClassificationError::InvalidDid(m) && m@ == agent_did_error_text(context.actor@)),
            !is_blank_seq(context.record_id@) && agent_did_valid(context.actor@) ==> (least_blank_tag(
                str_views(context.tag.tags@),
            ) matches Some(t) ==> (r matches Err(e) && e matches DataClassificationError::InvalidTag(v) && v@ == t)),
            !is_blank_seq(context.record_id@) && agent_did_valid(context.actor@) && least_blank_tag(
                str_views(context.tag.tags@),
            ) is None && untagged_sensitive(context.tag) ==> (r matches Err(e)
                && e matches DataClassificationError::UntaggedSensitiveWrite(id) && id@ == context.record_id@),
            agent_did_valid(context.actor@) && write_tag_acceptable(context.record_id@, context.tag) && level_rank(
                context.tag.level,
            ) < level_rank(minimum_level(old(self).minimums(), context.domain)) ==> r == Err::<String, _>(
                DataClassificationError::ClassificationBelowDomainMinimum {
                    domain: context.domain,
                    required: minimum_level(old(self).minimums(), context.domain),
                    provided: context.tag.level,
                },
            ),
            agent_did_valid(context.actor@) && write_tag_acceptable(context.record_id@, context.tag) && level_rank(
                context.tag.level,
            ) >= level_rank(minimum_level(old(self).minimums(), context.domain)) && missing_set(
                old(self).required(),
                context.tag,
            ) != Set::<Seq<char>>::empty() ==> (r matches Err(e)
                && e matches DataClassificationError::MissingRequiredTags { level, missing } && level
                == context.tag.level && lists_set(missing@, missing_set(old(self).required(), context.tag))),
            r is Ok <==> agent_did_valid(context.actor@) && write_permitted(
                old(self).minimums(),
                old(self).required(),
                context.domain,
                context.record_id@,
                context.tag,
            ),
            r matches Ok(key) ==> key@ == state_key_text(
                domain_namespace(context.domain),
                "record"@,
                context.record_id@,
            ),
    {
        if is_blank(context.record_id.as_str()) {
            return Err(DataClassificationError::EmptyField("record_id"));
        }
        match AgentDid::parse(context.actor.as_str()) {
            Ok(_) => {},
            Err(detail) => {
                return Err(DataClassificationError::InvalidDid(detail));
            },
        }
        self.validate_write_tag(context.record_id.as_str(), &context.tag)?;
        let minimum = self.minimum_for(context.domain);
        if level_rank_of(context.tag.level) < level_rank_of(minimum) {
            return Err(
                DataClassificationError::ClassificationBelowDomainMinimum {
                    domain: context.domain,
                    required: minimum,
                    provided: context.tag.level,
                },
            );
        }
        let missing = self.missing_required_tags(&context.tag);
        if missing.len() > 0 {
            proof {
                assert(str_views(missing@).contains(str_views(missing@)[0]));
                assert(str_views(missing@).to_set().contains(str_views(missing@)[0]));
                assert(missing_set(self.required(), context.tag).contains(str_views(missing@)[0]));
            }
            return Err(DataClassificationError::MissingRequiredTags { level: context.tag.level, missing });
        }
        proof {
            assert(str_views(missing@).to_set() =~= Set::<Seq<char>>::empty());
        }
        Ok(canonical_state_key(namespace_for_domain(context.domain), "record", context.record_id.as_str()))
    }

    /// Computes authorization status for a domain/record and provided tag.
    pub fn status_for(&self, domain: WriteDomain, record_id: &str, tag: WriteTag) -> (r: Result<
        ClassificationStatus,
        DataClassificationError,
    >)
        ensures
            is_blank_seq(record_id@) ==> r == Err::<ClassificationStatus, _>(DataClassificationError::EmptyField("record_id")),
            !is_blank_seq(record_id@) ==> (least_blank_tag(str_views(tag.tags@)) matches Some(t) ==> (r matches Err(e)
                && e matches DataClassificationError::InvalidTag(v) && v@ == t)),
            !is_blank_seq(record_id@) && least_blank_tag(str_views(tag.tags@)) is None && untagged_sensitive(tag) ==> (r matches Err(
                e,
            ) && e matches DataClassificationError::UntaggedSensitiveWrite(id) && id@ == record_id@),
            r is Ok <==> write_tag_acceptable(record_id@, tag),
            r matches Ok(st) ==> (st.domain == domain && st.record_id@ == record_id@ && st.minimum_level
                == minimum_level(self.minimums(), domain) && st.provided_level == tag.level && lists_set(
                st.missing_tags@,
                missing_set(self.required(), tag),
            ) && st.authorized == write_permitted(self.minimums(), self.required(), domain, record_id@, tag)),
    {
        if is_blank(record_id) {
            return Err(DataClassificationError::EmptyField("record_id"));
        }
        self.validate_write_tag(record_id, &tag)?;
        let minimum = self.minimum_for(domain);
        let missing = self.missing_required_tags(&tag);
        let authorized = level_rank_of(tag.level) >= level_rank_of(minimum) && !(level_rank_of(tag.level) >= 2
            && tag.tags.len() == 0) && missing.len() == 0;
        proof {
            if missing.len() == 0 {
                assert(str_views(missing@).to_set() =~= Set::<Seq<char>>::empty());
            } else {
                assert(str_views(missing@).contains(str_views(missing@)[0]));
                assert(str_views(missing@).to_set().contains(str_views(missing@)[0]));
                assert(missing_set(self.required(), tag).contains(str_views(missing@)[0]));
            }
        }
        Ok(
            ClassificationStatus {
                domain,
                record_id: record_id.to_owned(),
                minimum_level: minimum,
                provided_level: tag.level,
                missing_tags: missing,
                authorized,
            },
        )
    }
}

/// The error's message text.
pub open spec fn classification_error_message(e: DataClassificationError) -> Seq<char> {
    match e {
        DataClassificationError::InvalidPolicy(value) => "invalid classification policy: "@ + value@,
        DataClassificationError::EmptyField(field) => "field must not be empty: "@ + field@,
        DataClassificationError::InvalidTag(value) => "invalid tag: "@ + value@,
        DataClassificationError::InvalidDid(value) => "invalid did: "@ + value@,
        DataClassificationError::MissingRequiredTags { level, missing } => "missing required tags for level "@ + level_name(level) + ": "@ + join_seqs(str_views(missing@), ", "@),
        DataClassificationError::ClassificationBelowDomainMinimum { domain, required, provided } => "classification level "@ + level_name(provided) + " is below minimum "@ + level_name(required) + " for domain "@ + domain_name(domain),
        DataClassificationError::UntaggedSensitiveWrite(value) => "sensitive/restricted write is missing tags: "@ + value@,
    }
}

impl DataClassificationError {
    /// The error's message text.
    pub fn message(&self) -> (r: String)
        ensures
            r@ == classification_error_message(*self),
    {
        match self {
            DataClassificationError::InvalidPolicy(value) => {
                let mut out = String::new();
                out.append("invalid classification policy: ");
                out.append(value.as_str());
                proof {
                    assert(out@ =~= "invalid classification policy: "@ + value@);
                }
                out
            },
            DataClassificationError::EmptyField(field) => {
                let mut out = String::new();
                out.append("field must not be empty: ");
                out.append(*field);
                proof {
                    assert(out@ =~= "field must not be empty: "@ + field@);
                }
                out
            },
            DataClassificationError::InvalidTag(value) => {
                let mut out = String::new();
                out.append("invalid tag: ");
                out.append(value.as_str());
                proof {
                    assert(out@ =~= "invalid tag: "@ + value@);
                }
                out
            },
            DataClassificationError::InvalidDid(value) => {
                let mut out = String::new();
                out.append("invalid did: ");
                out.append(value.as_str());
                proof {
                    assert(out@ =~= "invalid did: "@ + value@);
                }
                out
            },
            DataClassificationError::MissingRequiredTags { level, missing } => {
                let mut out = String::new();
                out.append("missing required tags for level ");
                out.append(level_name_str(*level));
                out.append(": ");
                out.append(join_strings(missing, ", ").as_str());
                proof {
                    assert(out@ =~= "missing required tags for level "@ + level_name(*level) + ": "@ + join_seqs(str_views(missing@), ", "@));
                }
                out
            },
            DataClassificationError::ClassificationBelowDomainMinimum { domain, required, provided } => {
                let mut out = String::new();
                out.append("classification level ");
                out.append(level_name_str(*provided));
                out.append(" is below minimum ");
                out.append(level_name_str(*required));
                out.append(" for domain ");
                out.append(domain_name_str(*domain));
                proof {
                    assert(out@ =~= "classification level "@ + level_name(*provided) + " is below minimum "@ + level_name(*required) + " for domain "@ + domain_name(*domain));
                }
                out
            },
            DataClassificationError::UntaggedSensitiveWrite(value) => {
                let mut out = String::new();
                out.append("sensitive/restricted write is missing tags: ");
                out.append(value.as_str());
                proof {
                    assert(out@ =~= "sensitive/restricted write is missing tags: "@ + value@);
                }
                out
            },
        }
    }
}

} // verus!
