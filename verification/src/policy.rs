//! Permissions, decided by Cedar policies.  The policies of the `.cedar`
//! files are loaded in the order given, then a policy that permits
//! everything is added, so that only `forbid` rules restrict anything.
use vstd::prelude::*;
use cedar_policy::{Authorizer, EntityUid, ParseErrors, Policy, PolicySet, PolicySetError, Request};
use crate::text::{append_str, chars_of, string_of};

verus! {

#[verifier::external_type_specification]
#[verifier::external_body]
pub struct ExPolicySet(PolicySet);

#[verifier::external_type_specification]
#[verifier::external_body]
pub struct ExPolicy(Policy);

#[verifier::external_type_specification]
#[verifier::external_body]
pub struct ExAuthorizer(Authorizer);

#[verifier::external_type_specification]
#[verifier::external_body]
pub struct ExEntityUid(EntityUid);

#[verifier::external_type_specification]
#[verifier::external_body]
pub struct ExRequest(Request);

#[verifier::external_type_specification]
#[verifier::external_body]
pub struct ExParseErrors(ParseErrors);

#[verifier::external_type_specification]
#[verifier::external_body]
pub struct ExPolicySetError(PolicySetError);

/// Whether a text is one Cedar policy.
pub uninterp spec fn policy_parses(src: Seq<char>) -> bool;

/// Why a text is not an entity reference (`Type::"id"`), or nothing when it
/// is one.
pub uninterp spec fn entity_uid_error(s: Seq<char>) -> Option<Seq<char>>;

/// The policies (and any templates) a Cedar policy set holds, each by its
/// id and its text, in the order they were added.
pub uninterp spec fn policy_set_contents(s: PolicySet) -> Seq<(Seq<char>, Seq<char>)>;

/// Cedar's decision on a request, with no entities and an empty context:
/// whether the policies (by id and text) allow `action` by `principal` on
/// `resource` (each an entity reference).  It depends on these alone.
pub uninterp spec fn cedar_allows(
    policies: Seq<(Seq<char>, Seq<char>)>,
    principal: Seq<char>,
    action: Seq<char>,
    resource: Seq<char>,
) -> bool;

/// Whether a policy id is among the policies.
pub open spec fn id_taken(ps: Seq<(Seq<char>, Seq<char>)>, id: Seq<char>) -> bool {
    exists|k: int| 0 <= k < ps.len() && (#[trigger] ps[k]).0 == id
}

/// A policy parsed from `text` under the id `id`.  Only `parse` below
/// builds one, so the policy is always the one those two give.
struct ParsedPolicy {
    id: String,
    text: String,
    policy: Policy,
}

/// A request for the three entity references it was built from.  Only
/// `PolicyEngine::check` builds one, from those references.
struct CheckedRequest {
    principal: String,
    action: String,
    resource: String,
    request: Request,
}

/// `PolicySet::new`: a set of no policies.
#[verifier::external_body]
fn new_policy_set() -> (r: PolicySet)
    ensures
        policy_set_contents(r) == Seq::<(Seq<char>, Seq<char>)>::empty(),
{
    PolicySet::new()
}

/// `Policy::parse` with the given id.  Whether the text parses depends on
/// the text alone.
#[verifier::external_body]
fn parse_policy(id: &str, src: &str) -> (r: Result<Policy, ParseErrors>)
    ensures
        r is Ok <==> policy_parses(src@),
{
    Policy::parse(Some(cedar_policy::PolicyId::new(id)), src)
}

/// `PolicySet::add` of a parsed static policy.  It refuses the policy when
/// the set already holds a policy with its id, and then leaves the set as
/// it was; otherwise the policy is added.  The sets built here hold static
/// policies only, never templates or template links.
#[verifier::external_body]
fn add_policy(set: &mut PolicySet, p: ParsedPolicy) -> (r: Result<(), PolicySetError>)
    ensures
        r is Ok <==> !id_taken(policy_set_contents(*old(set)), p.id@),
        r is Ok ==> policy_set_contents(*final(set)) == policy_set_contents(*old(set)).push((p.id@, p.text@)),
        r is Err ==> policy_set_contents(*final(set)) == policy_set_contents(*old(set)),
{
    set.add(p.policy)
}

/// `Authorizer::new`.
#[verifier::external_body]
fn new_authorizer() -> (r: Authorizer) {
    Authorizer::new()
}

/// `EntityUid::from_str`, its error rendered as text.
#[verifier::external_body]
fn parse_entity_uid(s: &str) -> (r: Result<EntityUid, String>)
    ensures
        match r {
            Ok(_) => entity_uid_error(s@) is None,
            Err(m) => entity_uid_error(s@) == Some(m@),
        },
{
    <EntityUid as std::str::FromStr>::from_str(s).map_err(|e| e.to_string())
}

/// `Request::new` with an empty context and no schema; without a schema
/// the request is not validated, so it is always built.
#[verifier::external_body]
fn new_request(p: EntityUid, a: EntityUid, r: EntityUid) -> (res: Result<Request, String>)
    ensures
        res is Ok,
{
    Request::new(p, a, r, cedar_policy::Context::empty(), None).map_err(|e| e.to_string())
}

/// `Authorizer::is_authorized` over no entities: whether the decision is
/// `Allow`.  The decision is Cedar's, on the set's policies and the three
/// references the request was built from.
#[verifier::external_body]
fn is_allowed(az: &Authorizer, req: &CheckedRequest, set: &PolicySet) -> (r: bool)
    ensures
        r == cedar_allows(policy_set_contents(*set), req.principal@, req.action@, req.resource@),
{
    match az.is_authorized(&req.request, set, &cedar_policy::Entities::empty()).decision() {
        cedar_policy::Decision::Allow => true,
        cedar_policy::Decision::Deny => false,
    }
}

/// Why the policies could not be loaded or a request not be checked.
#[derive(Debug)]
pub enum PolicyError {
    /// A policy file is not a Cedar policy.
    ParseError(ParseErrors),
    /// A policy file could not be read.
    IoError(String),
    /// A policy could not be added (its id is taken).
    PolicySetError(PolicySetError),
    /// An entity reference of a request is malformed.
    EntityError(String),
}

/// The policy that permits everything.
pub open spec fn permit_all() -> Seq<char> {
    "permit(principal, action, resource);"@
}

/// The id of the policy that permits everything.
pub open spec fn permit_all_id() -> Seq<char> {
    "static_permissive"@
}

/// The message of a malformed entity reference.
pub open spec fn entity_message(role: Seq<char>, why: Seq<char>) -> Seq<char> {
    "Invalid "@ + role + ": "@ + why
}

/// Policy files as (stem, text).
pub open spec fn files_view(files: Seq<(String, String)>) -> Seq<(Seq<char>, Seq<char>)> {
    files.map_values(|f: (String, String)| (f.0@, f.1@))
}

/// Whether the `j`-th file cannot be loaded after the ones before it: its
/// text is not a policy, or an earlier file has its stem.
pub open spec fn load_fails_at(fs: Seq<(Seq<char>, Seq<char>)>, j: int) -> bool {
    !policy_parses(fs[j].1) || id_taken(fs.take(j), fs[j].0)
}

/// The first file from the `i`-th on that cannot be loaded.
pub open spec fn first_failure(fs: Seq<(Seq<char>, Seq<char>)>, i: int) -> Option<int>
    decreases fs.len() - i,
{
    if i < 0 || i >= fs.len() {
        None
    } else if load_fails_at(fs, i) {
        Some(i)
    } else {
        first_failure(fs, i + 1)
    }
}

/// Enforces permissions with Cedar.
pub struct PolicyEngine {
    policy_set: PolicySet,
    authorizer: Authorizer,
}

fn entity_error(role: &str, why: &str) -> (r: PolicyError)
    ensures
        r matches PolicyError::EntityError(m) && m@ == entity_message(role@, why@),
{
    let mut v = chars_of("Invalid ");
    append_str(&mut v, role);
    append_str(&mut v, ": ");
    append_str(&mut v, why);
    PolicyError::EntityError(string_of(&v))
}

/// `text` parsed as the policy `id`.
fn parse(id: &str, text: &str) -> (r: Result<ParsedPolicy, ParseErrors>)
    ensures
        r is Ok <==> policy_parses(text@),
        r matches Ok(p) ==> p.id@ == id@ && p.text@ == text@,
{
    match parse_policy(id, text) {
        Ok(policy) => Ok(ParsedPolicy { id: id.to_owned(), text: text.to_owned(), policy }),
        Err(e) => Err(e),
    }
}

/// Adds the policy that permits everything to a set, as the last policy.
fn add_permit_all(set: &mut PolicySet) -> (r: Result<(), PolicyError>)
    ensures
        !policy_parses(permit_all()) ==> r matches Err(PolicyError::ParseError(_)),
        policy_parses(permit_all()) && !id_taken(policy_set_contents(*old(set)), permit_all_id()) ==> r is Ok,
        policy_parses(permit_all()) ==> !(r matches Err(PolicyError::ParseError(_))),
        r is Ok ==> policy_set_contents(*final(set)) == policy_set_contents(*old(set)).push(
            (permit_all_id(), permit_all()),
        ),
        !(r matches Err(PolicyError::IoError(_))),
        !(r matches Err(PolicyError::EntityError(_))),
{
    match parse("static_permissive", "permit(principal, action, resource);") {
        Ok(p) => {
            match add_policy(set, p) {
                Ok(()) => Ok(()),
                Err(e) => Err(PolicyError::PolicySetError(e)),
            }
        },
        Err(e) => Err(PolicyError::ParseError(e)),
    }
}

proof fn lemma_first_failure(fs: Seq<(Seq<char>, Seq<char>)>, i: int)
    requires
        0 <= i <= fs.len(),
    ensures
        match first_failure(fs, i) {
            Some(j) => i <= j < fs.len() && load_fails_at(fs, j) && forall|k: int|
                i <= k < j ==> !#[trigger] load_fails_at(fs, k),
            None => forall|k: int| i <= k < fs.len() ==> !#[trigger] load_fails_at(fs, k),
        },
    decreases fs.len() - i,
{
    if i < fs.len() {
        lemma_first_failure(fs, i + 1);
    }
}

impl PolicyEngine {
    /// The policies the engine decides by, each by its id and text, in the
    /// order they were loaded.
    pub closed spec fn policies(&self) -> Seq<(Seq<char>, Seq<char>)> {
        policy_set_contents(self.policy_set)
    }

    /// Loads the policies of the `.cedar` files, given as (file stem, text)
    /// in the order the directory listed them, each under its stem as id,
    /// then adds the policy that permits everything.  The first file whose
    /// text is not a policy is reported as `ParseError`, the first whose
    /// stem an earlier file had as `PolicySetError`; otherwise the engine
    /// holds the files' policies in order, then the permit-all policy.
    pub fn new(files: &Vec<(String, String)>) -> (r: Result<Self, PolicyError>)
        requires
            forall|i: int| 0 <= i < files@.len() ==> (#[trigger] files@[i]).0@ != "static_permissive"@,
        ensures
            match first_failure(files_view(files@), 0) {
                Some(j) => if !policy_parses(files@[j].1@) {
                    r matches Err(PolicyError::ParseError(_))
                } else {
                    r matches Err(PolicyError::PolicySetError(_))
                },
                None => if !policy_parses(permit_all()) {
                    r matches Err(PolicyError::ParseError(_))
                } else {
                    r matches Ok(e) && e.policies() == files_view(files@).push((permit_all_id(), permit_all()))
                },
            },
            !(r matches Err(PolicyError::IoError(_))),
            !(r matches Err(PolicyError::EntityError(_))),
    {
        let ghost fs = files_view(files@);
        proof {
            lemma_first_failure(fs, 0);
        }
        let mut set = new_policy_set();
        let mut i: usize = 0;
        while i < files.len()
            invariant
                i <= files@.len(),
                fs == files_view(files@),
                fs.len() == files@.len(),
                policy_set_contents(set) == fs.take(i as int),
                forall|k: int| 0 <= k < i ==> !#[trigger] load_fails_at(fs, k),
                first_failure(fs, 0) == first_failure(fs, i as int),
            decreases files.len() - i,
        {
            proof {
                lemma_first_failure(fs, i as int);
            }
            let (stem, src) = &files[i];
            assert(fs[i as int] == (stem@, src@));
            match parse(stem.as_str(), src.as_str()) {
                Ok(p) => {
                    match add_policy(&mut set, p) {
                        Ok(()) => {},
                        Err(e) => {
                            return Err(PolicyError::PolicySetError(e));
                        },
                    }
                },
                Err(e) => {
                    return Err(PolicyError::ParseError(e));
                },
            }
            assert(fs.take(i as int).push(fs[i as int]) =~= fs.take(i + 1));
            i += 1;
        }
        assert(fs.take(files@.len() as int) =~= fs);
        proof {
            if id_taken(fs, permit_all_id()) {
                let k = choose|k: int| 0 <= k < fs.len() && (#[trigger] fs[k]).0 == permit_all_id();
                assert(files@[k].0@ != "static_permissive"@);
            }
        }
        match add_permit_all(&mut set) {
            Ok(()) => {},
            Err(e) => {
                return Err(e);
            },
        }
        Ok(PolicyEngine { policy_set: set, authorizer: new_authorizer() })
    }

    /// An engine with the one policy that permits everything.  It fails
    /// only where Cedar refuses that policy: `ParseError` exactly when the
    /// text does not parse.
    pub fn permissive() -> (r: Result<Self, PolicyError>)
        ensures
            r matches Err(PolicyError::ParseError(_)) <==> !policy_parses(permit_all()),
            policy_parses(permit_all()) ==> (r matches Ok(e) && e.policies() == seq![(permit_all_id(), permit_all())]),
            !(r matches Err(PolicyError::IoError(_))),
            !(r matches Err(PolicyError::EntityError(_))),
    {
        let mut set = new_policy_set();
        match add_permit_all(&mut set) {
            Ok(()) => {},
            Err(e) => {
                return Err(e);
            },
        }
        assert(Seq::<(Seq<char>, Seq<char>)>::empty().push((permit_all_id(), permit_all())) =~= seq![
            (permit_all_id(), permit_all()),
        ]);
        Ok(PolicyEngine { policy_set: set, authorizer: new_authorizer() })
    }

    /// Whether the policies allow `action` by `principal` on `resource`,
    /// each an entity reference such as `User::"alice"`.  A malformed
    /// reference is an `EntityError` naming the first one; otherwise the
    /// answer is Cedar's decision on the engine's policies.
    pub fn check(&self, principal: &str, action: &str, resource: &str) -> (r: Result<bool, PolicyError>)
        ensures
            entity_uid_error(principal@) matches Some(m) ==> (r matches Err(PolicyError::EntityError(x))
                && x@ == entity_message("principal"@, m)),
            entity_uid_error(principal@) is None ==> (entity_uid_error(action@) matches Some(m) ==> (r matches Err(
                PolicyError::EntityError(x),
            ) && x@ == entity_message("action"@, m))),
            entity_uid_error(principal@) is None && entity_uid_error(action@) is None ==> (entity_uid_error(
                resource@,
            ) matches Some(m) ==> (r matches Err(PolicyError::EntityError(x)) && x@ == entity_message(
                "resource"@,
                m,
            ))),
            entity_uid_error(principal@) is None && entity_uid_error(action@) is None && entity_uid_error(
                resource@,
            ) is None ==> r == Ok::<bool, PolicyError>(
                cedar_allows(self.policies(), principal@, action@, resource@),
            ),
    {
        let p = match parse_entity_uid(principal) {
            Ok(u) => u,
            Err(m) => {
                return Err(entity_error("principal", m.as_str()));
            },
        };
        let a = match parse_entity_uid(action) {
            Ok(u) => u,
            Err(m) => {
                return Err(entity_error("action", m.as_str()));
            },
        };
        let res = match parse_entity_uid(resource) {
            Ok(u) => u,
            Err(m) => {
                return Err(entity_error("resource", m.as_str()));
            },
        };
        let request = match new_request(p, a, res) {
            Ok(q) => q,
            Err(m) => {
                let mut v = chars_of("Request validation error: ");
                append_str(&mut v, m.as_str());
                return Err(PolicyError::EntityError(string_of(&v)));
            },
        };
        let req = CheckedRequest {
            principal: principal.to_owned(),
            action: action.to_owned(),
            resource: resource.to_owned(),
            request,
        };
        Ok(is_allowed(&self.authorizer, &req, &self.policy_set))
    }
}

} // verus!
