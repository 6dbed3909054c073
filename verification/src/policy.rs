use vstd::prelude::*;
use crate::text::same_text;

verus! {

/// The literal that matches any value in the field where it stands.
pub open spec fn wildcard() -> Seq<char> {
    seq!['*']
}

/// Whether a rule field admits a requested value: by exact, case-sensitive
/// equality, or because the field is the wildcard.
pub open spec fn field_admits(field: Seq<char>, value: Seq<char>) -> bool {
    field == value || field == wildcard()
}

/// Whether a group rule's subject admits an identity with the given groups:
/// the subject names one of the groups, or is the wildcard.
pub open spec fn groups_admit(subject: Seq<char>, groups: Seq<Seq<char>>) -> bool {
    subject == wildcard() || groups.contains(subject)
}

/// An allow rule: `subject` may perform `action` on `resource`.
///
/// In the user list of a [`PolicySet`] the subject is a username, in the
/// group list it is a group name. There are no deny rules.
#[derive(Debug, Clone, PartialEq, Eq)]
pub struct PolicyRule {
    pub subject: String,
    pub resource: String,
    pub action: String,
}

/// Mathematical value of a [`PolicyRule`].
pub struct RuleView {
    pub subject: Seq<char>,
    pub resource: Seq<char>,
    pub action: Seq<char>,
}

impl View for PolicyRule {
    type V = RuleView;

    open spec fn view(&self) -> RuleView {
        RuleView { subject: self.subject@, resource: self.resource@, action: self.action@ }
    }
}

impl RuleView {
    /// The rule allows `username` to perform `action` on `resource`.
    pub open spec fn permits_user(
        self,
        username: Seq<char>,
        resource: Seq<char>,
        action: Seq<char>,
    ) -> bool {
        &&& field_admits(self.subject, username)
        &&& field_admits(self.resource, resource)
        &&& field_admits(self.action, action)
    }

    /// The rule allows a member of `groups` to perform `action` on `resource`.
    pub open spec fn permits_groups(
        self,
        groups: Seq<Seq<char>>,
        resource: Seq<char>,
        action: Seq<char>,
    ) -> bool {
        &&& groups_admit(self.subject, groups)
        &&& field_admits(self.resource, resource)
        &&& field_admits(self.action, action)
    }
}

/// The authenticated subject of a request.
#[derive(Debug, Clone, PartialEq, Eq)]
pub struct Identity {
    pub username: String,
    pub groups: Vec<String>,
}

/// Mathematical value of an [`Identity`].
pub struct IdentityView {
    pub username: Seq<char>,
    pub groups: Seq<Seq<char>>,
}

impl View for Identity {
    type V = IdentityView;

    open spec fn view(&self) -> IdentityView {
        IdentityView { username: self.username@, groups: self.groups.deep_view() }
    }
}

/// The rule set that requests are evaluated against.
#[derive(Debug, Clone, PartialEq, Eq)]
pub struct PolicySet {
    pub policy: Vec<PolicyRule>,
    pub group_policy: Vec<PolicyRule>,
}

/// Mathematical value of a [`PolicySet`].
pub struct PolicySetView {
    pub policy: Seq<RuleView>,
    pub group_policy: Seq<RuleView>,
}

/// The views of a list of rules, in order.
pub open spec fn rules_view(rules: Seq<PolicyRule>) -> Seq<RuleView> {
    Seq::new(rules.len(), |i: int| rules[i]@)
}

impl View for PolicySet {
    type V = PolicySetView;

    open spec fn view(&self) -> PolicySetView {
        PolicySetView {
            policy: rules_view(self.policy@),
            group_policy: rules_view(self.group_policy@),
        }
    }
}

impl PolicySetView {
    /// Some user rule allows the request.
    pub open spec fn some_user_rule_permits(
        self,
        username: Seq<char>,
        resource: Seq<char>,
        action: Seq<char>,
    ) -> bool {
        exists|i: int|
            0 <= i < self.policy.len() && (#[trigger] self.policy[i]).permits_user(
                username,
                resource,
                action,
            )
    }

    /// Some group rule allows the request.
    pub open spec fn some_group_rule_permits(
        self,
        groups: Seq<Seq<char>>,
        resource: Seq<char>,
        action: Seq<char>,
    ) -> bool {
        exists|i: int|
            0 <= i < self.group_policy.len() && (#[trigger] self.group_policy[i]).permits_groups(
                groups,
                resource,
                action,
            )
    }

    /// Deny by default: the request is allowed exactly when at least one rule
    /// of either list allows it.
    pub open spec fn permits(
        self,
        identity: IdentityView,
        resource: Seq<char>,
        action: Seq<char>,
    ) -> bool {
        ||| self.some_user_rule_permits(identity.username, resource, action)
        ||| self.some_group_rule_permits(identity.groups, resource, action)
    }
}

/// Tells whether `text` is the wildcard literal.
pub fn is_wildcard(text: &str) -> (r: bool)
    ensures
        r == (text@ == wildcard()),
{
    if text.unicode_len() == 1 {
        let c = text.get_char(0);
        assert(text@ =~= seq![c]);
        c == '*'
    } else {
        false
    }
}

/// Executable form of [`field_admits`].
pub fn field_matches(field: &str, value: &str) -> (r: bool)
    ensures
        r == field_admits(field@, value@),
{
    same_text(field, value) || is_wildcard(field)
}

/// Tells whether `name` occurs in `groups`.
pub fn in_groups(name: &str, groups: &Vec<String>) -> (r: bool)
    ensures
        r == groups.deep_view().contains(name@),
{
    let mut i: usize = 0;
    while i < groups.len()
        invariant
            i <= groups.len(),
            forall|k: int| 0 <= k < i ==> groups.deep_view()[k] != name@,
        decreases groups.len() - i,
    {
        if same_text(groups[i].as_str(), name) {
            assert(groups.deep_view()[i as int] == name@);
            return true;
        }
        i += 1;
    }
    false
}

impl PolicyRule {
    pub fn new(subject: String, resource: String, action: String) -> (r: PolicyRule)
        ensures
            r.subject == subject,
            r.resource == resource,
            r.action == action,
    {
        PolicyRule { subject, resource, action }
    }

    /// Evaluates the rule as a user rule.
    pub fn permits_user(&self, username: &str, resource: &str, action: &str) -> (r: bool)
        ensures
            r == self@.permits_user(username@, resource@, action@),
    {
        field_matches(self.subject.as_str(), username) && field_matches(
            self.resource.as_str(),
            resource,
        ) && field_matches(self.action.as_str(), action)
    }

    /// Evaluates the rule as a group rule.
    pub fn permits_groups(&self, groups: &Vec<String>, resource: &str, action: &str) -> (r: bool)
        ensures
            r == self@.permits_groups(groups.deep_view(), resource@, action@),
    {
        (is_wildcard(self.subject.as_str()) || in_groups(self.subject.as_str(), groups))
            && field_matches(self.resource.as_str(), resource) && field_matches(
            self.action.as_str(),
            action,
        )
    }
}

impl PolicySet {
    /// The rule set a service starts with: no rule, so nothing is allowed.
    pub fn empty() -> (r: PolicySet)
        ensures
            r@.policy.len() == 0,
            r@.group_policy.len() == 0,
    {
        PolicySet { policy: Vec::new(), group_policy: Vec::new() }
    }
}

/// Decides whether `identity` may perform `action` on `resource` under
/// `policy_set`. There is no I/O and no state: the answer depends on the
/// arguments alone.
pub fn is_authorized(
    identity: &Identity,
    resource: &str,
    action: &str,
    policy_set: &PolicySet,
) -> (r: bool)
    ensures
        r == policy_set@.permits(identity@, resource@, action@),
{
    let mut i: usize = 0;
    while i < policy_set.policy.len()
        invariant
            i <= policy_set.policy.len(),
            forall|k: int|
                0 <= k < i ==> !(#[trigger] policy_set@.policy[k]).permits_user(
                    identity@.username,
                    resource@,
                    action@,
                ),
        decreases policy_set.policy.len() - i,
    {
        assert(policy_set@.policy[i as int] == policy_set.policy[i as int]@);
        if policy_set.policy[i].permits_user(identity.username.as_str(), resource, action) {
            return true;
        }
        i += 1;
    }
    let mut j: usize = 0;
    while j < policy_set.group_policy.len()
        invariant
            j <= policy_set.group_policy.len(),
            !policy_set@.some_user_rule_permits(identity@.username, resource@, action@),
            forall|k: int|
                0 <= k < j ==> !(#[trigger] policy_set@.group_policy[k]).permits_groups(
                    identity@.groups,
                    resource@,
                    action@,
                ),
        decreases policy_set.group_policy.len() - j,
    {
        assert(policy_set@.group_policy[j as int] == policy_set.group_policy[j as int]@);
        if policy_set.group_policy[j].permits_groups(&identity.groups, resource, action) {
            return true;
        }
        j += 1;
    }
    false
}

/// The answer of the identity provider to a request for the current rules:
/// two lists of rows, each row a subject, a resource and an action.
#[derive(Debug, Clone, PartialEq, Eq)]
pub struct PermissionResponse {
    pub policy: Vec<Vec<String>>,
    pub group_policy: Vec<Vec<String>>,
}

/// Every row is a triple.
pub open spec fn rows_are_triples(rows: Seq<Seq<Seq<char>>>) -> bool {
    forall|i: int| 0 <= i < rows.len() ==> (#[trigger] rows[i]).len() == 3
}

/// The rules that rows of triples stand for, in the order of the rows.
pub open spec fn rules_of_rows(rows: Seq<Seq<Seq<char>>>) -> Seq<RuleView> {
    Seq::new(
        rows.len(),
        |i: int| RuleView { subject: rows[i][0], resource: rows[i][1], action: rows[i][2] },
    )
}

/// The rule set that a response stands for: none where some row is not a
/// triple.
pub open spec fn policy_of_response(
    policy: Seq<Seq<Seq<char>>>,
    group_policy: Seq<Seq<Seq<char>>>,
) -> Option<PolicySetView> {
    if rows_are_triples(policy) && rows_are_triples(group_policy) {
        Some(
            PolicySetView {
                policy: rules_of_rows(policy),
                group_policy: rules_of_rows(group_policy),
            },
        )
    } else {
        None
    }
}

/// Turns rows into rules; `None` where some row is not a triple.
pub fn rules_from_rows(rows: &Vec<Vec<String>>) -> (r: Option<Vec<PolicyRule>>)
    ensures
        match r {
            Some(rules) => rows_are_triples(rows.deep_view()) && rules_view(rules@)
                == rules_of_rows(rows.deep_view()),
            None => !rows_are_triples(rows.deep_view()),
        },
{
    let mut rules: Vec<PolicyRule> = Vec::new();
    let mut i: usize = 0;
    while i < rows.len()
        invariant
            i <= rows.len(),
            rules@.len() == i,
            forall|k: int| 0 <= k < i ==> (#[trigger] rows.deep_view()[k]).len() == 3,
            forall|k: int|
                0 <= k < i ==> (#[trigger] rules@[k])@ == rules_of_rows(rows.deep_view())[k],
        decreases rows.len() - i,
    {
        let row = &rows[i];
        assert(rows.deep_view()[i as int] == row.deep_view());
        if row.len() != 3 {
            return None;
        }
        let rule = PolicyRule {
            subject: row[0].clone(),
            resource: row[1].clone(),
            action: row[2].clone(),
        };
        assert(row.deep_view()[0] == row[0]@);
        assert(row.deep_view()[1] == row[1]@);
        assert(row.deep_view()[2] == row[2]@);
        rules.push(rule);
        i += 1;
    }
    assert(rules_view(rules@) =~= rules_of_rows(rows.deep_view()));
    Some(rules)
}

impl PolicySet {
    /// Builds the rule set that a response of the identity provider stands
    /// for. A response with a row that is not a triple gives no rule set at
    /// all: rules are never taken over in part.
    pub fn from_response(response: &PermissionResponse) -> (r: Option<PolicySet>)
        ensures
            match policy_of_response(
                response.policy.deep_view(),
                response.group_policy.deep_view(),
            ) {
                Some(set) => r matches Some(got) && got@ == set,
                None => r is None,
            },
    {
        let policy = match rules_from_rows(&response.policy) {
            Some(rules) => rules,
            None => {
                return None;
            },
        };
        let group_policy = match rules_from_rows(&response.group_policy) {
            Some(rules) => rules,
            None => {
                return None;
            },
        };
        Some(PolicySet { policy, group_policy })
    }
}

/// The rule set that requests are currently evaluated against.
///
/// It starts empty and is only ever replaced as a whole, so whoever reads it
/// sees one complete rule set.
#[derive(Debug, Clone, PartialEq, Eq)]
pub struct PolicyCache {
    current: PolicySet,
}

impl View for PolicyCache {
    type V = PolicySetView;

    closed spec fn view(&self) -> PolicySetView {
        self.current@
    }
}

impl PolicyCache {
    /// The cache of a service that has fetched nothing yet.
    pub fn new() -> (r: PolicyCache)
        ensures
            r@.policy.len() == 0,
            r@.group_policy.len() == 0,
    {
        PolicyCache { current: PolicySet::empty() }
    }

    /// The rule set in force.
    pub fn snapshot(&self) -> (r: &PolicySet)
        ensures
            r@ == self@,
    {
        &self.current
    }

    /// Puts `fresh` in the place of the rule set in force.
    pub fn replace(&mut self, fresh: PolicySet)
        ensures
            final(self)@ == fresh@,
    {
        self.current = fresh;
    }

    /// Takes in the outcome of a fetch: `None` where the identity provider
    /// gave no answer. A well-formed answer replaces the rule set as a whole
    /// and `true` is returned; otherwise the last rule set stays in force.
    pub fn absorb(&mut self, fetched: Option<&PermissionResponse>) -> (installed: bool)
        ensures
            match fetched {
                Some(response) => match policy_of_response(
                    response.policy.deep_view(),
                    response.group_policy.deep_view(),
                ) {
                    Some(set) => installed && final(self)@ == set,
                    None => !installed && final(self)@ == old(self)@,
                },
                None => !installed && final(self)@ == old(self)@,
            },
    {
        match fetched {
            Some(response) => match PolicySet::from_response(response) {
                Some(set) => {
                    self.current = set;
                    true
                },
                None => false,
            },
            None => false,
        }
    }
}

/// Deny by default: a rule set without rules allows nothing.
pub proof fn lemma_empty_set_denies(
    set: PolicySetView,
    identity: IdentityView,
    resource: Seq<char>,
    action: Seq<char>,
)
    requires
        set.policy.len() == 0,
        set.group_policy.len() == 0,
    ensures
        !set.permits(identity, resource, action),
{
}

/// Any matching allow rule wins: a request that one user rule allows is
/// allowed, whatever else the rule set holds.
pub proof fn lemma_user_rule_suffices(
    set: PolicySetView,
    i: int,
    identity: IdentityView,
    resource: Seq<char>,
    action: Seq<char>,
)
    requires
        0 <= i < set.policy.len(),
        set.policy[i].permits_user(identity.username, resource, action),
    ensures
        set.permits(identity, resource, action),
{
}

/// Any matching allow rule wins: a request that one group rule allows is
/// allowed, whatever else the rule set holds.
pub proof fn lemma_group_rule_suffices(
    set: PolicySetView,
    i: int,
    identity: IdentityView,
    resource: Seq<char>,
    action: Seq<char>,
)
    requires
        0 <= i < set.group_policy.len(),
        set.group_policy[i].permits_groups(identity.groups, resource, action),
    ensures
        set.permits(identity, resource, action),
{
}

/// A user rule whose subject is the wildcard allows every user to do what
/// the rule names.
pub proof fn lemma_wildcard_subject_admits_everyone(
    set: PolicySetView,
    i: int,
    identity: IdentityView,
)
    requires
        0 <= i < set.policy.len(),
        set.policy[i].subject == wildcard(),
    ensures
        set.permits(identity, set.policy[i].resource, set.policy[i].action),
{
    assert(set.policy[i].permits_user(
        identity.username,
        set.policy[i].resource,
        set.policy[i].action,
    ));
}

/// A rule set of one user rule without wildcards allows the request that
/// the rule names and no other.
pub proof fn lemma_single_user_rule(
    set: PolicySetView,
    identity: IdentityView,
    resource: Seq<char>,
    action: Seq<char>,
)
    requires
        set.policy.len() == 1,
        set.group_policy.len() == 0,
        set.policy[0].subject != wildcard(),
        set.policy[0].resource != wildcard(),
        set.policy[0].action != wildcard(),
    ensures
        set.permits(identity, resource, action) <==> (identity.username == set.policy[0].subject
            && resource == set.policy[0].resource && action == set.policy[0].action),
{
    if identity.username == set.policy[0].subject && resource == set.policy[0].resource && action
        == set.policy[0].action {
        assert(set.policy[0].permits_user(identity.username, resource, action));
    }
}

/// A rule set of one group rule without wildcards allows what the rule
/// names to the members of its group, and nothing to anyone else.
pub proof fn lemma_single_group_rule(
    set: PolicySetView,
    identity: IdentityView,
    resource: Seq<char>,
    action: Seq<char>,
)
    requires
        set.policy.len() == 0,
        set.group_policy.len() == 1,
        set.group_policy[0].subject != wildcard(),
        set.group_policy[0].resource != wildcard(),
        set.group_policy[0].action != wildcard(),
    ensures
        set.permits(identity, resource, action) <==> (identity.groups.contains(
            set.group_policy[0].subject,
        ) && resource == set.group_policy[0].resource && action == set.group_policy[0].action),
{
    if identity.groups.contains(set.group_policy[0].subject) && resource
        == set.group_policy[0].resource && action == set.group_policy[0].action {
        assert(set.group_policy[0].permits_groups(identity.groups, resource, action));
    }
}

} // verus!
