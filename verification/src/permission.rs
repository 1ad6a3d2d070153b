//! The declarative role/permission configuration and its parser.
//!
//! A configuration names roles, each with its accounts, and permission
//! groups, each mapping an action key `"eng-chn"` to a value
//! `"role-status:role-status:..."`. Building a group resolves, for every
//! role, which actions it may take; a malformed key or value is rejected.

use vstd::prelude::*;

verus! {

/// One action as one role sees it.
#[derive(Debug)]
pub struct RpItem {
    /// The action's technical name.
    pub eng: String,
    /// The action's display name.
    pub chn: String,
    /// Whether the role may take the action.
    pub enabled: bool,
}

/// The actions of one role, grouped by page.
#[derive(Debug)]
pub struct RpAction {
    /// Page name to the actions on that page.
    pub actions: Vec<(String, Vec<RpItem>)>,
}

/// Role name to the accounts holding the role.
pub type RpInputRole = Vec<(String, Vec<String>)>;

/// Group name to its action table: action key `"eng-chn"` to the value
/// `"role-status:..."` that says which roles may take it.
pub type RpInputPermission = Vec<(String, Vec<(String, String)>)>;

/// A whole role/permission configuration.
#[derive(Debug)]
pub struct RpConfig {
    /// The application the configuration belongs to.
    pub name: String,
    /// The declared roles and their accounts.
    pub role: RpInputRole,
    /// The declared permission groups.
    pub permission: RpInputPermission,
}

/// A malformed configuration entry.
#[derive(Debug)]
pub enum RpError {
    /// An action key does not split into exactly an `eng` and a `chn` name.
    BadActionKey(String),
    /// An action value entry does not split into exactly a role and a
    /// status.
    BadActionValue(String),
}

/// The resolved permissions: the inputs as given, and per role the actions
/// it may take together with its accounts.
#[derive(Debug)]
pub struct RpGroup {
    /// The permission groups the resolution was built from.
    pub input_permission: RpInputPermission,
    /// The roles the resolution was built from.
    pub input_role: RpInputRole,
    /// Role name to its resolved actions and its accounts.
    pub roles: Vec<(String, (RpAction, Vec<String>))>,
}

impl Clone for RpItem {
    /// An exact copy, field by field.
    fn clone(&self) -> (r: Self)
        ensures
            r == *self,
    {
        RpItem { eng: self.eng.clone(), chn: self.chn.clone(), enabled: self.enabled }
    }
}

/// Splitting a character sequence at a separator, with the part read so far
/// in hand: the parts are the maximal separator-free stretches, and a
/// sequence of `n` separators yields `n + 1` (possibly empty) parts.
pub open spec fn spec_split_rec(s: Seq<char>, sep: char, cur: Seq<char>) -> Seq<Seq<char>>
    decreases s.len(),
{
    if s.len() == 0 {
        seq![cur]
    } else if s[0] == sep {
        seq![cur] + spec_split_rec(s.subrange(1, s.len() as int), sep, Seq::empty())
    } else {
        spec_split_rec(s.subrange(1, s.len() as int), sep, cur.push(s[0]))
    }
}

/// The parts of `s` between occurrences of `sep`, in order.
pub open spec fn spec_split(s: Seq<char>, sep: char) -> Seq<Seq<char>> {
    spec_split_rec(s, sep, Seq::empty())
}

/// The parts of `s` between occurrences of `sep`, in order; there is always
/// at least one part, and splitting a separator-free string yields it
/// whole.
pub fn split_string(s: &str, sep: char) -> (r: Vec<String>)
    ensures
        r@.map_values(|p: String| p@) == spec_split(s@, sep),
        r@.len() >= 1,
{
    let mut out: Vec<String> = Vec::new();
    let n = s.unicode_len();
    let mut start: usize = 0;
    proof {
        assert(s@.subrange(0, s@.len() as int) =~= s@);
        assert(s@.subrange(0, 0) =~= Seq::<char>::empty());
        assert(out@.map_values(|p: String| p@) =~= Seq::<Seq<char>>::empty());
    }
    for i in 0..n
        invariant
            n == s@.len(),
            start <= i,
            spec_split(s@, sep) == out@.map_values(|p: String| p@) + spec_split_rec(
                s@.subrange(i as int, s@.len() as int),
                sep,
                s@.subrange(start as int, i as int),
            ),
    {
        let c = s.get_char(i);
        if c == sep {
            let part = s.substring_char(start, i);
            let owned = part.to_owned();
            proof {
                let rest = s@.subrange(i as int, s@.len() as int);
                assert(rest[0] == sep);
                assert(rest.subrange(1, rest.len() as int) =~= s@.subrange(
                    i + 1,
                    s@.len() as int,
                ));
                assert((out@.push(owned)).map_values(|p: String| p@) =~= out@.map_values(
                    |p: String| p@,
                ).push(owned@));
                assert(s@.subrange(i + 1, i + 1) =~= Seq::<char>::empty());
            }
            out.push(owned);
            start = i + 1;
        } else {
            proof {
                let rest = s@.subrange(i as int, s@.len() as int);
                assert(rest[0] == c);
                assert(rest.subrange(1, rest.len() as int) =~= s@.subrange(
                    i + 1,
                    s@.len() as int,
                ));
                assert(s@.subrange(start as int, i as int).push(c) =~= s@.subrange(
                    start as int,
                    i + 1,
                ));
            }
        }
    }
    let last = s.substring_char(start, n);
    let owned = last.to_owned();
    proof {
        assert(s@.subrange(n as int, s@.len() as int).len() == 0);
        assert((out@.push(owned)).map_values(|p: String| p@) =~= out@.map_values(
            |p: String| p@,
        ).push(owned@));
    }
    out.push(owned);
    out
}

/// An action key is well formed when it splits into exactly an `eng` and a
/// `chn` name.
pub open spec fn spec_action_key_wf(key: Seq<char>) -> bool {
    spec_split(key, '-').len() == 2
}

/// An action value is well formed when every colon-separated entry splits
/// into exactly a role name and a status.
pub open spec fn spec_action_info_wf(info: Seq<char>) -> bool {
    forall|k: int|
        0 <= k < spec_split(info, ':').len() ==> (#[trigger] spec_split(
            spec_split(info, ':')[k],
            '-',
        )).len() == 2
}

/// The status the entries give a role, the last entry for that role
/// winning, or nothing when no entry names it.
pub open spec fn spec_status_lookup(entries: Seq<Seq<char>>, role: Seq<char>) -> Option<bool>
    decreases entries.len(),
{
    if entries.len() == 0 {
        None
    } else {
        let parts = spec_split(entries.last(), '-');
        if parts.len() == 2 && parts[0] == role {
            Some(parts[1] == "true"@)
        } else {
            spec_status_lookup(entries.drop_last(), role)
        }
    }
}

/// Whether an action value enables a role: the status its last matching
/// entry gives it, with any status but `"true"` — and a role the value
/// never names — meaning disabled.
pub open spec fn spec_enabled_for(info: Seq<char>, role: Seq<char>) -> bool {
    match spec_status_lookup(spec_split(info, ':'), role) {
        Some(b) => b,
        None => false,
    }
}

/// Every action key and value of every group is well formed.
pub open spec fn spec_permission_wf(p: Seq<(String, Vec<(String, String)>)>) -> bool {
    forall|g: int, a: int|
        0 <= g < p.len() && 0 <= a < p[g].1@.len() ==> spec_action_key_wf(
            (#[trigger] p[g].1@[a]).0@,
        ) && spec_action_info_wf(p[g].1@[a].1@)
}

/// The resolved actions of one role match the configuration: one page per
/// group in order, one item per action key in order, each item carrying the
/// key's two names and the status the value gives this role.
pub open spec fn spec_role_actions_built(
    ra: RpAction,
    p: Seq<(String, Vec<(String, String)>)>,
    role: Seq<char>,
) -> bool {
    &&& ra.actions@.len() == p.len()
    &&& forall|g: int|
        0 <= g < p.len() ==> (#[trigger] ra.actions@[g]).0@ == p[g].0@ && ra.actions@[g].1@.len()
            == p[g].1@.len()
    &&& forall|g: int, a: int|
        0 <= g < p.len() && 0 <= a < p[g].1@.len() ==> {
            let item = (#[trigger] ra.actions@[g].1@[a]);
            &&& item.eng@ == spec_split(p[g].1@[a].0@, '-')[0]
            &&& item.chn@ == spec_split(p[g].1@[a].0@, '-')[1]
            &&& item.enabled == spec_enabled_for(p[g].1@[a].1@, role)
        }
}

/// A rejection names a real offender: the offending key or value occurs in
/// the configuration and is indeed malformed.
pub open spec fn spec_err_names_offender(
    e: RpError,
    p: Seq<(String, Vec<(String, String)>)>,
) -> bool {
    match e {
        RpError::BadActionKey(s) => !spec_action_key_wf(s@) && exists|g: int, a: int|
            0 <= g < p.len() && 0 <= a < p[g].1@.len() && (#[trigger] p[g].1@[a]).0@ == s@,
        RpError::BadActionValue(s) => !spec_action_info_wf(s@) && exists|g: int, a: int|
            0 <= g < p.len() && 0 <= a < p[g].1@.len() && (#[trigger] p[g].1@[a]).1@ == s@,
    }
}

/// Two action tables with the same pages and the same items.
pub open spec fn spec_action_eq(a: RpAction, b: RpAction) -> bool {
    &&& a.actions@.len() == b.actions@.len()
    &&& forall|g: int|
        0 <= g < a.actions@.len() ==> (#[trigger] a.actions@[g]).0@ == b.actions@[g].0@
            && a.actions@[g].1@ == b.actions@[g].1@
}

/// An action table allows an action on a page when some page entry of that
/// name lists the action enabled.
pub open spec fn spec_action_allowed(actions: RpAction, page: Seq<char>, act: Seq<char>) -> bool {
    exists|g: int, a: int|
        0 <= g < actions.actions@.len() && (#[trigger] actions.actions@[g]).0@ == page && 0 <= a
            < actions.actions@[g].1@.len() && (#[trigger] actions.actions@[g].1@[a]).eng@ == act
            && actions.actions@[g].1@[a].enabled
}

/// Allowance only reads pages and items, so equal tables allow the same
/// actions.
pub proof fn lemma_allowed_respects_eq(a: RpAction, b: RpAction, page: Seq<char>, act: Seq<char>)
    requires
        spec_action_eq(a, b),
    ensures
        spec_action_allowed(a, page, act) <==> spec_action_allowed(b, page, act),
{
    if spec_action_allowed(a, page, act) {
        let (g, x) = choose|g: int, x: int|
            0 <= g < a.actions@.len() && (#[trigger] a.actions@[g]).0@ == page && 0 <= x
                < a.actions@[g].1@.len() && (#[trigger] a.actions@[g].1@[x]).eng@ == act
                && a.actions@[g].1@[x].enabled;
        assert(b.actions@[g].0@ == page && b.actions@[g].1@[x].eng@ == act
            && b.actions@[g].1@[x].enabled);
    }
    if spec_action_allowed(b, page, act) {
        let (g, x) = choose|g: int, x: int|
            0 <= g < b.actions@.len() && (#[trigger] b.actions@[g]).0@ == page && 0 <= x
                < b.actions@[g].1@.len() && (#[trigger] b.actions@[g].1@[x]).eng@ == act
                && b.actions@[g].1@[x].enabled;
        assert(a.actions@[g].0@ == page && a.actions@[g].1@[x].eng@ == act
            && a.actions@[g].1@[x].enabled);
    }
}

impl Clone for RpAction {
    /// A copy with the same pages and items.
    fn clone(&self) -> (r: Self)
        ensures
            spec_action_eq(r, *self),
    {
        let mut acts: Vec<(String, Vec<RpItem>)> = Vec::new();
        let n = self.actions.len();
        for g in 0..n
            invariant
                n == self.actions@.len(),
                acts@.len() == g,
                forall|x: int|
                    0 <= x < g ==> (#[trigger] acts@[x]).0@ == self.actions@[x].0@ && acts@[x].1@
                        == self.actions@[x].1@,
        {
            let m = self.actions[g].1.len();
            let mut items: Vec<RpItem> = Vec::new();
            for a in 0..m
                invariant
                    g < self.actions@.len(),
                    m == self.actions@[g as int].1@.len(),
                    items@.len() == a,
                    forall|y: int|
                        0 <= y < a ==> #[trigger] items@[y] == self.actions@[g as int].1@[y],
            {
                items.push(self.actions[g].1[a].clone());
            }
            proof {
                assert(items@ =~= self.actions@[g as int].1@);
            }
            acts.push((self.actions[g].0.clone(), items));
        }
        RpAction { actions: acts }
    }
}

/// A copy of a string list, element for element.
fn clone_string_vec(v: &Vec<String>) -> (r: Vec<String>)
    ensures
        r@ == v@,
{
    let mut out: Vec<String> = Vec::new();
    let n = v.len();
    for i in 0..n
        invariant
            n == v@.len(),
            out@.len() == i,
            forall|j: int| 0 <= j < i ==> #[trigger] out@[j] == v@[j],
    {
        out.push(v[i].clone());
    }
    proof {
        assert(out@ =~= v@);
    }
    out
}

/// Resolves whether one action value enables one role, rejecting a
/// malformed value.
fn action_enabled(info: &String, role: &String) -> (r: Result<bool, RpError>)
    ensures
        r matches Ok(b) ==> spec_action_info_wf(info@) && b == spec_enabled_for(info@, role@),
        r matches Err(e) ==> !spec_action_info_wf(info@) && (e matches RpError::BadActionValue(s)
            && s@ == info@),
{
    let entries = split_string(info.as_str(), ':');
    let ghost es = spec_split(info@, ':');
    let true_word: String = "true".to_owned();
    let mut found: Option<bool> = None;
    let n = entries.len();
    proof {
        assert(es.subrange(0, 0) =~= Seq::<Seq<char>>::empty());
    }
    for k in 0..n
        invariant
            n == entries@.len(),
            es == spec_split(info@, ':'),
            entries@.map_values(|p: String| p@) == es,
            true_word@ == "true"@,
            found == spec_status_lookup(es.subrange(0, k as int), role@),
            forall|j: int|
                0 <= j < k ==> (#[trigger] spec_split(es[j], '-')).len() == 2,
    {
        proof {
            assert(entries@[k as int]@ == es[k as int]);
        }
        let parts = split_string(entries[k].as_str(), '-');
        if parts.len() != 2 {
            proof {
                let sp = spec_split(es[k as int], '-');
                assert(parts@.map_values(|p: String| p@) == sp);
                assert(sp.len() == parts@.len());
                assert(0 <= k < es.len());
                assert(spec_split(info@, ':') == es);
                assert(spec_split(info@, ':')[k as int] == es[k as int]);
                assert(spec_split(spec_split(info@, ':')[k as int], '-') == sp);
                assert(!spec_action_info_wf(info@));
            }
            return Err(RpError::BadActionValue(info.clone()));
        }
        proof {
            assert(parts@.map_values(|p: String| p@) == spec_split(es[k as int], '-'));
            assert(parts@[0]@ == spec_split(es[k as int], '-')[0]);
            assert(parts@[1]@ == spec_split(es[k as int], '-')[1]);
        }
        if parts[0].eq(role) {
            found = Some(parts[1].eq(&true_word));
        }
        proof {
            assert(es.subrange(0, k + 1).drop_last() =~= es.subrange(0, k as int));
            assert(es.subrange(0, k + 1).last() == es[k as int]);
        }
    }
    proof {
        assert(es.subrange(0, es.len() as int) =~= es);
    }
    match found {
        Some(b) => Ok(b),
        None => Ok(false),
    }
}

/// Builds the item list of one permission group for one role, rejecting a
/// malformed key or value.
fn build_items(action_map: &Vec<(String, String)>, role: &String) -> (r: Result<
    Vec<RpItem>,
    RpError,
>)
    ensures
        r matches Ok(items) ==> {
            &&& items@.len() == action_map@.len()
            &&& forall|a: int|
                0 <= a < action_map@.len() ==> spec_action_key_wf(
                    (#[trigger] action_map@[a]).0@,
                ) && spec_action_info_wf(action_map@[a].1@)
            &&& forall|a: int|
                0 <= a < action_map@.len() ==> {
                    let item = (#[trigger] items@[a]);
                    &&& item.eng@ == spec_split(action_map@[a].0@, '-')[0]
                    &&& item.chn@ == spec_split(action_map@[a].0@, '-')[1]
                    &&& item.enabled == spec_enabled_for(action_map@[a].1@, role@)
                }
        },
        r matches Err(e) ==> match e {
            RpError::BadActionKey(s) => !spec_action_key_wf(s@) && exists|a: int|
                0 <= a < action_map@.len() && (#[trigger] action_map@[a]).0@ == s@,
            RpError::BadActionValue(s) => !spec_action_info_wf(s@) && exists|a: int|
                0 <= a < action_map@.len() && (#[trigger] action_map@[a]).1@ == s@,
        },
{
    let mut items: Vec<RpItem> = Vec::new();
    let n = action_map.len();
    for a in 0..n
        invariant
            n == action_map@.len(),
            items@.len() == a,
            forall|x: int|
                0 <= x < a ==> spec_action_key_wf((#[trigger] action_map@[x]).0@)
                    && spec_action_info_wf(action_map@[x].1@),
            forall|x: int|
                0 <= x < a ==> {
                    let item = (#[trigger] items@[x]);
                    &&& item.eng@ == spec_split(action_map@[x].0@, '-')[0]
                    &&& item.chn@ == spec_split(action_map@[x].0@, '-')[1]
                    &&& item.enabled == spec_enabled_for(action_map@[x].1@, role@)
                },
    {
        let key = &action_map[a].0;
        let parts = split_string(key.as_str(), '-');
        if parts.len() != 2 {
            return Err(RpError::BadActionKey(key.clone()));
        }
        let enabled = match action_enabled(&action_map[a].1, role) {
            Ok(b) => b,
            Err(e) => {
                return Err(e);
            },
        };
        proof {
            assert(parts@[0]@ == spec_split(key@, '-')[0]);
            assert(parts@[1]@ == spec_split(key@, '-')[1]);
        }
        items.push(RpItem { eng: parts[0].clone(), chn: parts[1].clone(), enabled });
    }
    Ok(items)
}

/// Builds the whole action table of one role, rejecting a malformed key or
/// value anywhere in the configuration.
fn build_role_action(permission: &RpInputPermission, role: &String) -> (r: Result<
    RpAction,
    RpError,
>)
    ensures
        r matches Ok(ra) ==> spec_role_actions_built(ra, permission@, role@) && spec_permission_wf(
            permission@,
        ),
        r matches Err(e) ==> !spec_permission_wf(permission@) && spec_err_names_offender(
            e,
            permission@,
        ),
{
    let mut acts: Vec<(String, Vec<RpItem>)> = Vec::new();
    let n = permission.len();
    for g in 0..n
        invariant
            n == permission@.len(),
            acts@.len() == g,
            forall|x: int|
                0 <= x < g ==> (#[trigger] acts@[x]).0@ == permission@[x].0@ && acts@[x].1@.len()
                    == permission@[x].1@.len(),
            forall|x: int, a: int|
                0 <= x < g && 0 <= a < permission@[x].1@.len() ==> spec_action_key_wf(
                    (#[trigger] permission@[x].1@[a]).0@,
                ) && spec_action_info_wf(permission@[x].1@[a].1@),
            forall|x: int, a: int|
                0 <= x < g && 0 <= a < permission@[x].1@.len() ==> {
                    let item = (#[trigger] acts@[x].1@[a]);
                    &&& item.eng@ == spec_split(permission@[x].1@[a].0@, '-')[0]
                    &&& item.chn@ == spec_split(permission@[x].1@[a].0@, '-')[1]
                    &&& item.enabled == spec_enabled_for(permission@[x].1@[a].1@, role@)
                },
    {
        let items = match build_items(&permission[g].1, role) {
            Ok(items) => items,
            Err(e) => {
                proof {
                    assert(!spec_permission_wf(permission@)) by {
                        match e {
                            RpError::BadActionKey(s) => {
                                let a = choose|a: int|
                                    0 <= a < permission@[g as int].1@.len() && (
                                    #[trigger] permission@[g as int].1@[a]).0@ == s@;
                                assert(!spec_action_key_wf(
                                    permission@[g as int].1@[a].0@,
                                ));
                            },
                            RpError::BadActionValue(s) => {
                                let a = choose|a: int|
                                    0 <= a < permission@[g as int].1@.len() && (
                                    #[trigger] permission@[g as int].1@[a]).1@ == s@;
                                assert(!spec_action_info_wf(
                                    permission@[g as int].1@[a].1@,
                                ));
                            },
                        }
                    }
                }
                return Err(e);
            },
        };
        acts.push((permission[g].0.clone(), items));
    }
    Ok(RpAction { actions: acts })
}

/// An account occurs in an account list.
pub open spec fn spec_user_listed(users: Seq<String>, account: Seq<char>) -> bool {
    exists|u: int| 0 <= u < users.len() && (#[trigger] users[u])@ == account
}

/// A resolved-permission list has an entry for this role name.
pub open spec fn perm_has(r: Seq<(String, RpAction)>, rn: Seq<char>) -> bool {
    exists|i: int| 0 <= i < r.len() && (#[trigger] r[i]).0@ == rn
}

/// The position of this role name in a resolved-permission list (unique
/// when its names are distinct).
pub open spec fn perm_index(r: Seq<(String, RpAction)>, rn: Seq<char>) -> int {
    choose|i: int| 0 <= i < r.len() && (#[trigger] r[i]).0@ == rn
}

/// The action table a resolved-permission list gives this role name.
pub open spec fn perm_actions(r: Seq<(String, RpAction)>, rn: Seq<char>) -> RpAction {
    r[perm_index(r, rn)].1
}

/// Whether this string occurs in the list.
fn contains_string(v: &Vec<String>, s: &String) -> (r: bool)
    ensures
        r == spec_user_listed(v@, s@),
{
    let n = v.len();
    for i in 0..n
        invariant
            n == v@.len(),
            forall|j: int| 0 <= j < i ==> (#[trigger] v@[j])@ != s@,
    {
        if v[i].eq(s) {
            return true;
        }
    }
    false
}

impl RpGroup {
    /// There is a role of this name.
    pub open spec fn spec_has_role(self, rn: Seq<char>) -> bool {
        exists|i: int| 0 <= i < self.roles@.len() && (#[trigger] self.roles@[i]).0@ == rn
    }

    /// The position of the role of this name (unique under
    /// [`RpGroup::roles_distinct`]).
    pub open spec fn spec_role_index(self, rn: Seq<char>) -> int {
        choose|i: int| 0 <= i < self.roles@.len() && (#[trigger] self.roles@[i]).0@ == rn
    }

    /// The resolved actions of the role of this name.
    pub open spec fn spec_role_actions(self, rn: Seq<char>) -> RpAction {
        self.roles@[self.spec_role_index(rn)].1.0
    }

    /// The accounts of the role of this name.
    pub open spec fn spec_role_users(self, rn: Seq<char>) -> Seq<String> {
        self.roles@[self.spec_role_index(rn)].1.1@
    }

    /// This account holds the role of this name.
    pub open spec fn spec_user_in_role(self, rn: Seq<char>, account: Seq<char>) -> bool {
        self.spec_has_role(rn) && exists|u: int|
            0 <= u < self.spec_role_users(rn).len() && (#[trigger] self.spec_role_users(
                rn,
            )[u])@ == account
    }

    /// No two roles share a name.
    pub open spec fn roles_distinct(self) -> bool {
        forall|i: int, j: int|
            0 <= i < j < self.roles@.len() ==> (#[trigger] self.roles@[i]).0@ != (
            #[trigger] self.roles@[j]).0@
    }

    /// Under distinct role names, any position holding a given name is the
    /// one `spec_role_index` picks.
    pub proof fn lemma_role_index_unique(self, rn: Seq<char>, i: int)
        requires
            self.roles_distinct(),
            0 <= i < self.roles@.len(),
            self.roles@[i].0@ == rn,
        ensures
            self.spec_role_index(rn) == i,
            self.spec_has_role(rn),
    {
        assert(self.spec_has_role(rn));
        let j = self.spec_role_index(rn);
        if i < j {
            assert(self.roles@[i].0@ != self.roles@[j].0@);
        } else if j < i {
            assert(self.roles@[j].0@ != self.roles@[i].0@);
        }
    }

    /// Resolves a configuration into per-role action tables.
    ///
    /// Succeeds exactly when every action key and value is well formed — or
    /// when no role is declared, in which case there is nothing to resolve
    /// and nothing is checked. Each declared role gets, in declaration
    /// order, its name, its accounts as given, and one item per action key
    /// of every group carrying that key's names and this role's status.
    pub fn create(config: RpConfig) -> (r: Result<RpGroup, RpError>)
        ensures
            r is Ok <==> (config.role@.len() == 0 || spec_permission_wf(config.permission@)),
            r matches Ok(g) ==> {
                &&& g.input_role == config.role
                &&& g.input_permission == config.permission
                &&& g.roles@.len() == config.role@.len()
                &&& forall|t: int|
                    0 <= t < config.role@.len() ==> (#[trigger] g.roles@[t]).0@
                        == config.role@[t].0@
                &&& forall|t: int|
                    0 <= t < config.role@.len() ==> (#[trigger] g.roles@[t]).1.1@
                        == config.role@[t].1@
                &&& forall|t: int|
                    0 <= t < config.role@.len() ==> spec_role_actions_built(
                        (#[trigger] g.roles@[t]).1.0,
                        config.permission@,
                        config.role@[t].0@,
                    )
                &&& (forall|i: int, j: int|
                    0 <= i < j < config.role@.len() ==> (#[trigger] config.role@[i]).0@ != (
                    #[trigger] config.role@[j]).0@) ==> g.roles_distinct()
            },
            r matches Err(e) ==> spec_err_names_offender(e, config.permission@)
                && config.role@.len() > 0,
    {
        let mut roles: Vec<(String, (RpAction, Vec<String>))> = Vec::new();
        let nr = config.role.len();
        for t in 0..nr
            invariant
                nr == config.role@.len(),
                roles@.len() == t,
                t > 0 ==> spec_permission_wf(config.permission@),
                forall|x: int|
                    0 <= x < t ==> (#[trigger] roles@[x]).0@ == config.role@[x].0@,
                forall|x: int|
                    0 <= x < t ==> (#[trigger] roles@[x]).1.1@ == config.role@[x].1@,
                forall|x: int|
                    0 <= x < t ==> spec_role_actions_built(
                        (#[trigger] roles@[x]).1.0,
                        config.permission@,
                        config.role@[x].0@,
                    ),
        {
            let ra = match build_role_action(&config.permission, &config.role[t].0) {
                Ok(ra) => ra,
                Err(e) => {
                    return Err(e);
                },
            };
            let users = clone_string_vec(&config.role[t].1);
            roles.push((config.role[t].0.clone(), (ra, users)));
        }
        let g = RpGroup { input_permission: config.permission, input_role: config.role, roles };
        Ok(g)
    }

    /// Role name to its accounts, for every declared role, in order.
    pub fn get_role(&self) -> (r: Vec<(String, Vec<String>)>)
        ensures
            r@.len() == self.roles@.len(),
            forall|i: int|
                0 <= i < r@.len() ==> (#[trigger] r@[i]).0@ == self.roles@[i].0@ && r@[i].1@
                    == self.roles@[i].1.1@,
    {
        let mut out: Vec<(String, Vec<String>)> = Vec::new();
        let n = self.roles.len();
        for i in 0..n
            invariant
                n == self.roles@.len(),
                out@.len() == i,
                forall|j: int|
                    0 <= j < i ==> (#[trigger] out@[j]).0@ == self.roles@[j].0@ && out@[j].1@
                        == self.roles@[j].1.1@,
        {
            out.push((self.roles[i].0.clone(), clone_string_vec(&self.roles[i].1.1)));
        }
        out
    }

    /// The permissions an account holds: one entry per role listing the
    /// account, each with that role's resolved actions — and the `default`
    /// role's actions besides, whenever a `default` role is declared, so
    /// every account enjoys at least the default permissions.
    pub fn get_user_permission(&self, user_account: String) -> (r: Vec<(String, RpAction)>)
        requires
            self.roles_distinct(),
        ensures
            forall|i: int, j: int|
                0 <= i < j < r@.len() ==> (#[trigger] r@[i]).0@ != (#[trigger] r@[j]).0@,
            forall|rn: Seq<char>|
                perm_has(r@, rn) <==> (self.spec_user_in_role(rn, user_account@) || (rn
                    == "default"@ && self.spec_has_role("default"@))),
            forall|rn: Seq<char>|
                perm_has(r@, rn) ==> spec_action_eq(
                    perm_actions(r@, rn),
                    self.spec_role_actions(rn),
                ),
    {
        let default_word: String = "default".to_owned();
        let mut out: Vec<(String, RpAction)> = Vec::new();
        let mut got_default = false;
        let n = self.roles.len();
        for i in 0..n
            invariant
                self.roles_distinct(),
                n == self.roles@.len(),
                default_word@ == "default"@,
                forall|x: int, y: int|
                    0 <= x < y < out@.len() ==> (#[trigger] out@[x]).0@ != (
                    #[trigger] out@[y]).0@,
                forall|x: int|
                    0 <= x < out@.len() ==> self.spec_user_in_role(
                        (#[trigger] out@[x]).0@,
                        user_account@,
                    ),
                forall|y: int|
                    0 <= y < i && spec_user_listed(
                        (#[trigger] self.roles@[y]).1.1@,
                        user_account@,
                    ) ==> perm_has(out@, self.roles@[y].0@),
                forall|y: int|
                    i <= y < n ==> !perm_has(out@, (#[trigger] self.roles@[y]).0@),
                forall|rn: Seq<char>|
                    perm_has(out@, rn) ==> spec_action_eq(
                        perm_actions(out@, rn),
                        self.spec_role_actions(rn),
                    ),
                got_default == perm_has(out@, "default"@),
        {
            let ghost pre = out@;
            if contains_string(&self.roles[i].1.1, &user_account) {
                let rn = self.roles[i].0.clone();
                let acts = self.roles[i].1.0.clone();
                proof {
                    self.lemma_role_index_unique(rn@, i as int);
                    assert(!perm_has(pre, rn@));
                }
                if rn.eq(&default_word) {
                    got_default = true;
                }
                out.push((rn, acts));
                proof {
                    Self::lemma_perm_pushed(pre, out@, self.spec_role_actions(rn@));
                    assert(out@[pre.len() as int].0@ == rn@);
                    assert(self.spec_user_in_role(rn@, user_account@)) by {
                        assert(self.spec_role_users(rn@) == self.roles@[i as int].1.1@);
                    }
                    assert forall|y: int| i + 1 <= y < n implies !perm_has(
                        out@,
                        (#[trigger] self.roles@[y]).0@,
                    ) by {
                        assert(self.roles@[i as int].0@ != self.roles@[y].0@);
                    }
                    assert forall|y: int|
                        0 <= y < i + 1 && spec_user_listed(
                            (#[trigger] self.roles@[y]).1.1@,
                            user_account@,
                        ) implies perm_has(out@, self.roles@[y].0@) by {
                        if y < i {
                            assert(perm_has(pre, self.roles@[y].0@));
                        } else {
                            assert(perm_has(out@, rn@));
                        }
                    }
                }
            } else {
                proof {
                    assert forall|y: int|
                        0 <= y < i + 1 && spec_user_listed(
                            (#[trigger] self.roles@[y]).1.1@,
                            user_account@,
                        ) implies perm_has(out@, self.roles@[y].0@) by {
                        assert(y < i);
                    }
                }
            }
        }
        let ghost loop_out = out@;
        if !got_default {
            let di = self.find_role(&default_word);
            match di {
                Some(d) => {
                    let acts = self.roles[d].1.0.clone();
                    proof {
                        self.lemma_role_index_unique("default"@, d as int);
                        assert(!perm_has(loop_out, "default"@));
                    }
                    out.push((default_word, acts));
                    proof {
                        Self::lemma_perm_pushed(loop_out, out@, self.spec_role_actions(
                            "default"@,
                        ));
                        assert(out@[loop_out.len() as int].0@ == "default"@);
                    }
                },
                None => {
                    proof {
                        assert(!self.spec_has_role("default"@));
                    }
                },
            }
        }
        proof {
            assert forall|rn: Seq<char>| perm_has(out@, rn) implies (self.spec_user_in_role(
                rn,
                user_account@,
            ) || (rn == "default"@ && self.spec_has_role("default"@))) by {
                if perm_has(loop_out, rn) {
                    let x = perm_index(loop_out, rn);
                    assert(0 <= x < loop_out.len() && loop_out[x].0@ == rn);
                    assert(self.spec_user_in_role(rn, user_account@));
                }
            }
            assert forall|rn: Seq<char>| (self.spec_user_in_role(rn, user_account@) || (rn
                == "default"@ && self.spec_has_role("default"@))) implies perm_has(
                out@,
                rn,
            ) by {
                if self.spec_user_in_role(rn, user_account@) {
                    let y = self.spec_role_index(rn);
                    assert(0 <= y < self.roles@.len() && self.roles@[y].0@ == rn);
                    assert(spec_user_listed(self.roles@[y].1.1@, user_account@)) by {
                        assert(self.spec_role_users(rn) == self.roles@[y].1.1@);
                    }
                    assert(perm_has(loop_out, rn));
                }
            }
        }
        out
    }


    /// The position of the role of this name, if it is declared.
    fn find_role(&self, rn: &String) -> (r: Option<usize>)
        ensures
            match r {
                Some(i) => i < self.roles@.len() && self.roles@[i as int].0@ == rn@,
                None => !self.spec_has_role(rn@),
            },
    {
        let n = self.roles.len();
        for i in 0..n
            invariant
                n == self.roles@.len(),
                forall|j: int| 0 <= j < i ==> (#[trigger] self.roles@[j]).0@ != rn@,
        {
            if self.roles[i].0.eq(rn) {
                return Some(i);
            }
        }
        None
    }

    /// Appending one entry to a resolved-permission list with distinct
    /// names, seen through its predicates.
    proof fn lemma_perm_pushed(pre: Seq<(String, RpAction)>, post: Seq<(String, RpAction)>, spec_acts: RpAction)
        requires
            forall|x: int, y: int|
                0 <= x < y < pre.len() ==> (#[trigger] pre[x]).0@ != (#[trigger] pre[y]).0@,
            post.len() == pre.len() + 1,
            forall|x: int| 0 <= x < pre.len() ==> post[x] == pre[x],
            !perm_has(pre, post[pre.len() as int].0@),
            spec_action_eq(post[pre.len() as int].1, spec_acts),
            forall|rn: Seq<char>|
                perm_has(pre, rn) ==> spec_action_eq(perm_actions(pre, rn), spec_acts) || true,
        ensures
            forall|x: int, y: int|
                0 <= x < y < post.len() ==> (#[trigger] post[x]).0@ != (#[trigger] post[y]).0@,
            forall|rn: Seq<char>|
                perm_has(post, rn) <==> perm_has(pre, rn) || rn == post[pre.len() as int].0@,
            perm_actions(post, post[pre.len() as int].0@) == post[pre.len() as int].1,
            forall|rn: Seq<char>|
                rn != post[pre.len() as int].0@ && perm_has(pre, rn) ==> perm_actions(post, rn)
                    == perm_actions(pre, rn),
    {
        let n = pre.len() as int;
        let nid = post[n].0@;
        assert forall|x: int, y: int| 0 <= x < y < post.len() implies (#[trigger] post[x]).0@ != (
        #[trigger] post[y]).0@ by {
            if y < n {
                assert(pre[x].0@ != pre[y].0@);
            } else {
                if post[x].0@ == nid {
                    assert(pre[x].0@ == nid);
                    assert(perm_has(pre, nid));
                }
            }
        }
        assert forall|rn: Seq<char>| perm_has(post, rn) <==> perm_has(pre, rn) || rn == nid by {
            if perm_has(post, rn) {
                let k = perm_index(post, rn);
                if k < n {
                    assert(pre[k].0@ == rn);
                }
            }
            if perm_has(pre, rn) {
                let k = perm_index(pre, rn);
                assert(post[k].0@ == rn);
            }
            if rn == nid {
                assert(post[n].0@ == rn);
            }
        }
        assert forall|k: int| 0 <= k < post.len() && post[k].0@ == nid implies k == n by {
            if k < n {
                assert(pre[k].0@ == nid);
                assert(perm_has(pre, nid));
            }
        }
        assert(perm_actions(post, nid) == post[n].1) by {
            let k = perm_index(post, nid);
            assert(0 <= k < post.len() && post[k].0@ == nid);
        }
        assert forall|rn: Seq<char>| rn != nid && perm_has(pre, rn) implies perm_actions(post, rn)
            == perm_actions(pre, rn) by {
            let k = perm_index(pre, rn);
            assert(0 <= k < pre.len() && pre[k].0@ == rn);
            assert forall|x: int| 0 <= x < pre.len() && pre[x].0@ == rn implies x == k by {
                if x < k {
                    assert(pre[x].0@ != pre[k].0@);
                } else if k < x {
                    assert(pre[k].0@ != pre[x].0@);
                }
            }
            let kp = perm_index(post, rn);
            assert(0 <= kp < post.len() && post[kp].0@ == rn);
            assert(kp != n);
            assert(pre[kp].0@ == rn);
            assert(kp == k);
        }
    }

    /// Whether an action table allows one action on one page: some entry of
    /// that page name lists the action, enabled.
    pub fn check_user_action_internal(actions: &RpAction, page: &String, item: &String) -> (r:
        bool)
        ensures
            r == spec_action_allowed(*actions, page@, item@),
    {
        let n = actions.actions.len();
        for g in 0..n
            invariant
                n == actions.actions@.len(),
                forall|x: int, a: int|
                    0 <= x < g && (#[trigger] actions.actions@[x]).0@ == page@ && 0 <= a
                        < actions.actions@[x].1@.len() ==> !((
                    #[trigger] actions.actions@[x].1@[a]).eng@ == item@
                        && actions.actions@[x].1@[a].enabled),
        {
            if actions.actions[g].0.eq(page) {
                let m = actions.actions[g].1.len();
                for a in 0..m
                    invariant
                        g < actions.actions@.len(),
                        actions.actions@[g as int].0@ == page@,
                        m == actions.actions@[g as int].1@.len(),
                        forall|b: int|
                            0 <= b < a ==> !((
                            #[trigger] actions.actions@[g as int].1@[b]).eng@ == item@
                                && actions.actions@[g as int].1@[b].enabled),
                {
                    if actions.actions[g].1[a].eng.eq(item) && actions.actions[g].1[a].enabled {
                        return true;
                    }
                }
            }
        }
        proof {
            if spec_action_allowed(*actions, page@, item@) {
                let (g, a) = choose|g: int, a: int|
                    0 <= g < actions.actions@.len() && (#[trigger] actions.actions@[g]).0@
                        == page@ && 0 <= a < actions.actions@[g].1@.len() && (
                    #[trigger] actions.actions@[g].1@[a]).eng@ == item@
                        && actions.actions@[g].1@[a].enabled;
                assert(false);
            }
        }
        false
    }

    /// Whether this account may take this action on this page, through any
    /// of its roles — the `default` role counting for every account when it
    /// is declared.
    pub fn check_user_action(&self, user_account: String, page: String, action: String) -> (r:
        bool)
        requires
            self.roles_distinct(),
        ensures
            r == exists|rn: Seq<char>|
                (self.spec_user_in_role(rn, user_account@) || (rn == "default"@
                    && self.spec_has_role("default"@))) && spec_action_allowed(
                    #[trigger] self.spec_role_actions(rn),
                    page@,
                    action@,
                ),
    {
        let perms = self.get_user_permission(user_account);
        let n = perms.len();
        for i in 0..n
            invariant
                self.roles_distinct(),
                n == perms@.len(),
                forall|x: int, y: int|
                    0 <= x < y < perms@.len() ==> (#[trigger] perms@[x]).0@ != (
                    #[trigger] perms@[y]).0@,
                forall|rn: Seq<char>|
                    perm_has(perms@, rn) <==> (self.spec_user_in_role(rn, user_account@) || (rn
                        == "default"@ && self.spec_has_role("default"@))),
                forall|rn: Seq<char>|
                    perm_has(perms@, rn) ==> spec_action_eq(
                        perm_actions(perms@, rn),
                        self.spec_role_actions(rn),
                    ),
                forall|x: int|
                    0 <= x < i ==> !spec_action_allowed((#[trigger] perms@[x]).1, page@, action@),
        {
            if Self::check_user_action_internal(&perms[i].1, &page, &action) {
                proof {
                    let rn = perms@[i as int].0@;
                    assert(perm_has(perms@, rn));
                    assert forall|x: int| 0 <= x < perms@.len() && perms@[x].0@ == rn implies x
                        == i by {
                        if x < i {
                            assert(perms@[x].0@ != perms@[i as int].0@);
                        } else if i < x {
                            assert(perms@[i as int].0@ != perms@[x].0@);
                        }
                    }
                    assert(perm_actions(perms@, rn) == perms@[i as int].1) by {
                        let k = perm_index(perms@, rn);
                        assert(0 <= k < perms@.len() && perms@[k].0@ == rn);
                    }
                    lemma_allowed_respects_eq(
                        perm_actions(perms@, rn),
                        self.spec_role_actions(rn),
                        page@,
                        action@,
                    );
                }
                return true;
            }
        }
        proof {
            if exists|rn: Seq<char>|
                (self.spec_user_in_role(rn, user_account@) || (rn == "default"@
                    && self.spec_has_role("default"@))) && spec_action_allowed(
                    #[trigger] self.spec_role_actions(rn),
                    page@,
                    action@,
                ) {
                let rn = choose|rn: Seq<char>|
                    (self.spec_user_in_role(rn, user_account@) || (rn == "default"@
                        && self.spec_has_role("default"@))) && spec_action_allowed(
                        #[trigger] self.spec_role_actions(rn),
                        page@,
                        action@,
                    );
                assert(perm_has(perms@, rn));
                let k = perm_index(perms@, rn);
                assert(0 <= k < perms@.len() && perms@[k].0@ == rn);
                lemma_allowed_respects_eq(
                    perm_actions(perms@, rn),
                    self.spec_role_actions(rn),
                    page@,
                    action@,
                );
                assert(spec_action_allowed(perms@[k].1, page@, action@));
                assert(false);
            }
        }
        false
    }
}

} // verus!
