//! Pause and upgrade administration shared by the bill-payments and insurance
//! contracts: a pause admin who can pause the whole contract or single
//! functions, an optional time lock on unpausing, and an upgrade admin who
//! records the contract version.
use vstd::prelude::*;
use crate::address::Address;

verus! {

/// The set of function names that are individually paused.
pub struct NameSet {
    names: Vec<String>,
}

impl View for NameSet {
    type V = Set<Seq<char>>;

    closed spec fn view(&self) -> Set<Seq<char>> {
        Set::new(|s: Seq<char>| exists|i: int| 0 <= i < self.names@.len() && self.names@[i]@ == s)
    }
}

impl NameSet {
    pub fn new() -> (s: NameSet)
        ensures
            s@ == Set::<Seq<char>>::empty(),
    {
        let s = NameSet { names: Vec::new() };
        assert(s@ =~= Set::<Seq<char>>::empty());
        s
    }

    fn position(&self, name: &String) -> (r: Option<usize>)
        ensures
            match r {
                Some(i) => i < self.names@.len() && self.names@[i as int]@ == name@,
                None => !self@.contains(name@),
            },
    {
        let n = self.names.len();
        let mut i: usize = 0;
        while i < n
            invariant
                n == self.names@.len(),
                i <= n,
                forall|j: int| 0 <= j < i ==> self.names@[j]@ != name@,
            decreases n - i,
        {
            if self.names[i] == *name {
                return Some(i);
            }
            i += 1;
        }
        None
    }

    /// The stored names, in insertion order.
    pub closed spec fn names(&self) -> Seq<String> {
        self.names@
    }

    /// Number of stored names.
    pub fn len(&self) -> (n: usize)
        ensures
            n == self.names().len(),
    {
        self.names.len()
    }

    /// The `i`-th stored name; every stored name belongs to the set.
    pub fn name_at(&self, i: usize) -> (s: &String)
        requires
            i < self.names().len(),
        ensures
            *s == self.names()[i as int],
            self@.contains(s@),
    {
        &self.names[i]
    }

    pub fn contains(&self, name: &String) -> (b: bool)
        ensures
            b == self@.contains(name@),
    {
        match self.position(name) {
            Some(i) => {
                assert(self@.contains(self.names@[i as int]@));
                true
            },
            None => false,
        }
    }

    pub fn insert(&mut self, name: String)
        ensures
            final(self)@ == old(self)@.insert(name@),
    {
        if self.position(&name).is_none() {
            let ghost v = name@;
            self.names.push(name);
            proof {
                assert forall|s: Seq<char>| #![auto]
                    final(self)@.contains(s) == old(self)@.insert(v).contains(s) by {
                    if old(self)@.contains(s) {
                        let j = choose|j: int| 0 <= j < old(self).names@.len() && old(self).names@[j]@ == s;
                        assert(self.names@[j]@ == s);
                    }
                    if s == v {
                        assert(self.names@[self.names@.len() - 1]@ == s);
                    }
                }
                assert(final(self)@ =~= old(self)@.insert(v));
            }
        } else {
            assert(old(self)@ =~= old(self)@.insert(name@));
        }
    }

    pub fn remove(&mut self, name: &String)
        ensures
            final(self)@ == old(self)@.remove(name@),
    {
        let ghost pre = self.names@;
        let n = self.names.len();
        let mut out: Vec<String> = Vec::new();
        let mut i: usize = 0;
        while i < n
            invariant
                n == pre.len(),
                pre == self.names@,
                i <= n,
                forall|j: int| 0 <= j < out@.len() ==> out@[j]@ != name@,
                forall|j: int|
                    0 <= j < out@.len() ==> exists|k: int| 0 <= k < i && pre[k]@ == #[trigger] out@[j]@,
                forall|k: int|
                    0 <= k < i && pre[k]@ != name@ ==> exists|j: int|
                        0 <= j < out@.len() && out@[j]@ == #[trigger] pre[k]@,
            decreases n - i,
        {
            let ghost old_out = out@;
            if self.names[i] != *name {
                let c = self.names[i].clone();
                out.push(c);
                assert(out@[out@.len() - 1]@ == pre[i as int]@);
            }
            proof {
                assert forall|k: int| 0 <= k < i + 1 && pre[k]@ != name@ implies exists|j: int|
                    0 <= j < out@.len() && out@[j]@ == #[trigger] pre[k]@ by {
                    if k < i {
                        let j = choose|j: int| 0 <= j < old_out.len() && old_out[j]@ == pre[k]@;
                        assert(out@[j] == old_out[j]);
                    } else {
                        assert(out@[out@.len() - 1]@ == pre[k]@);
                    }
                }
                assert forall|j: int| 0 <= j < out@.len() implies exists|k: int|
                    0 <= k < i + 1 && pre[k]@ == #[trigger] out@[j]@ by {
                    if j < old_out.len() {
                        assert(out@[j] == old_out[j]);
                        let k = choose|k: int| 0 <= k < i && pre[k]@ == old_out[j]@;
                    } else {
                        assert(out@[j]@ == pre[i as int]@);
                    }
                }
            }
            i += 1;
        }
        self.names = out;
        proof {
            assert forall|s: Seq<char>| #![auto]
                final(self)@.contains(s) == old(self)@.remove(name@).contains(s) by {
                if final(self)@.contains(s) {
                    let j = choose|j: int| 0 <= j < self.names@.len() && self.names@[j]@ == s;
                    let k = choose|k: int| 0 <= k < n && pre[k]@ == self.names@[j]@;
                    assert(old(self)@.contains(s));
                }
                if old(self)@.contains(s) && s != name@ {
                    let k = choose|k: int| 0 <= k < pre.len() && pre[k]@ == s;
                    assert(pre[k]@ != name@);
                }
            }
            assert(final(self)@ =~= old(self)@.remove(name@));
        }
    }
}

/// Why an administrative request was refused.
#[derive(Clone, Copy, PartialEq, Eq, Structural, Debug)]
pub enum AdminDenial {
    /// No admin has been set yet.
    NoAdmin,
    /// The caller is not the admin.
    NotAdmin,
    /// A time-locked unpause has not been reached yet.
    StillLocked,
    /// A requested unpause time is not in the future.
    NotInFuture,
}

/// Administrative state of a pausable, upgradable contract.
pub struct AdminState {
    pub pause_admin: Option<Address>,
    pub paused: bool,
    pub paused_fns: NameSet,
    pub unpause_at: Option<u64>,
    pub upgrade_admin: Option<Address>,
    pub version: Option<u32>,
}

/// Whether `caller` may install `new_admin` when the current admin is `current`:
/// the first admin can only appoint themselves, later only the admin can hand over.
pub open spec fn may_appoint(current: Option<Address>, caller: Address, new_admin: Address) -> bool {
    match current {
        None => caller == new_admin,
        Some(a) => a == caller,
    }
}

/// The refusal of an admin-only request by `caller`, if any.
pub open spec fn admin_check(admin: Option<Address>, caller: Address) -> Option<AdminDenial> {
    match admin {
        None => Some(AdminDenial::NoAdmin),
        Some(a) => if a == caller {
            None
        } else {
            Some(AdminDenial::NotAdmin)
        },
    }
}

/// The version a contract reports: the recorded one, else `default`.
pub open spec fn reported_version(v: Option<u32>, default: u32) -> u32 {
    match v {
        Some(x) => x,
        None => default,
    }
}

impl AdminState {
    pub fn new() -> (s: AdminState)
        ensures
            s.pause_admin is None,
            !s.paused,
            s.paused_fns@ == Set::<Seq<char>>::empty(),
            s.unpause_at is None,
            s.upgrade_admin is None,
            s.version is None,
    {
        AdminState {
            pause_admin: None,
            paused: false,
            paused_fns: NameSet::new(),
            unpause_at: None,
            upgrade_admin: None,
            version: None,
        }
    }

    pub fn check_pause_admin(&self, caller: Address) -> (r: Option<AdminDenial>)
        ensures
            r == admin_check(self.pause_admin, caller),
    {
        match self.pause_admin {
            None => Some(AdminDenial::NoAdmin),
            Some(a) => if a == caller {
                None
            } else {
                Some(AdminDenial::NotAdmin)
            },
        }
    }

    pub fn check_upgrade_admin(&self, caller: Address) -> (r: Option<AdminDenial>)
        ensures
            r == admin_check(self.upgrade_admin, caller),
    {
        match self.upgrade_admin {
            None => Some(AdminDenial::NoAdmin),
            Some(a) => if a == caller {
                None
            } else {
                Some(AdminDenial::NotAdmin)
            },
        }
    }

    /// Appoints a pause admin; returns whether the caller was allowed to.
    pub fn appoint_pause_admin(&mut self, caller: Address, new_admin: Address) -> (ok: bool)
        ensures
            ok == may_appoint(old(self).pause_admin, caller, new_admin),
            ok ==> final(self).pause_admin == Some(new_admin),
            !ok ==> final(self).pause_admin == old(self).pause_admin,
            final(self).paused == old(self).paused,
            final(self).paused_fns@ == old(self).paused_fns@,
            final(self).unpause_at == old(self).unpause_at,
            final(self).upgrade_admin == old(self).upgrade_admin,
            final(self).version == old(self).version,
    {
        let ok = match self.pause_admin {
            None => caller == new_admin,
            Some(a) => a == caller,
        };
        if ok {
            self.pause_admin = Some(new_admin);
        }
        ok
    }

    /// Appoints an upgrade admin; returns whether the caller was allowed to.
    pub fn appoint_upgrade_admin(&mut self, caller: Address, new_admin: Address) -> (ok: bool)
        ensures
            ok == may_appoint(old(self).upgrade_admin, caller, new_admin),
            ok ==> final(self).upgrade_admin == Some(new_admin),
            !ok ==> final(self).upgrade_admin == old(self).upgrade_admin,
            final(self).pause_admin == old(self).pause_admin,
            final(self).paused == old(self).paused,
            final(self).paused_fns@ == old(self).paused_fns@,
            final(self).unpause_at == old(self).unpause_at,
            final(self).version == old(self).version,
    {
        let ok = match self.upgrade_admin {
            None => caller == new_admin,
            Some(a) => a == caller,
        };
        if ok {
            self.upgrade_admin = Some(new_admin);
        }
        ok
    }

    pub fn version_or(&self, default: u32) -> (v: u32)
        ensures
            v == reported_version(self.version, default),
    {
        match self.version {
            Some(x) => x,
            None => default,
        }
    }
}

} // verus!
