//! The farming pool's whitelist: who may stake or lock while it is in force.

use vstd::prelude::*;
use crate::common::{Address, Fault, Receipt, Trap};
use crate::accounts::{
    list_add, list_remove, list_add_all, list_remove_all, no_duplicates, lemma_list_add,
    lemma_list_remove, list_contains, list_without,
};
use crate::pool::{
    FarmingPool, PoolConfig, PoolError, PoolResult, ListWhitelistedResponse, MAX_BATCH, refused,
    trapped, ok_quiet,
};

verus! {

/// Adding each of `users` keeps the list free of duplicates.
proof fn lemma_list_add_all(list: Seq<Address>, users: Seq<Address>)
    requires
        no_duplicates(list),
    ensures
        no_duplicates(list_add_all(list, users)),
        list_add_all(list, users).len() <= list.len() + users.len(),
    decreases users.len(),
{
    if users.len() > 0 {
        lemma_list_add_all(list, users.drop_last());
        lemma_list_add(list_add_all(list, users.drop_last()), users.last());
    }
}

/// Removing each of `users` keeps the list free of duplicates and no longer.
proof fn lemma_list_remove_all(list: Seq<Address>, users: Seq<Address>)
    requires
        no_duplicates(list),
    ensures
        no_duplicates(list_remove_all(list, users)),
        list_remove_all(list, users).len() <= list.len(),
    decreases users.len(),
{
    if users.len() > 0 {
        lemma_list_remove_all(list, users.drop_last());
        lemma_list_remove(list_remove_all(list, users.drop_last()), users.last());
    }
}

impl FarmingPool {
    /// Turn whitelist enforcement on or off (the admin authorizes).
    fn set_whitelist_enabled(&mut self, enabled: bool) -> (r: PoolResult<()>)
        requires
            old(self).wf(),
        ensures
            final(self).wf(),
            r is Err ==> *final(self) == *old(self),
            old(self).config.admin is None ==> r == refused::<()>(PoolError::NotInitialized),
            old(self).config.admin matches Some(admin) ==> {
                &&& ok_quiet(r, admin, seq![])
                &&& final(self).config == PoolConfig { whitelist_enabled: enabled, ..old(self).config }
                &&& final(self).totals == old(self).totals
                &&& final(self).same_records(old(self))
            },
    {
        let admin = match self.config.admin {
            None => {
                return Err(Fault::Error(PoolError::NotInitialized));
            },
            Some(a) => a,
        };
        self.config.whitelist_enabled = enabled;
        Ok(Receipt::new((), Some(admin), Vec::new(), Vec::new()))
    }

    /// Enforce the whitelist (the admin authorizes).
    pub fn enable_whitelist(&mut self) -> (r: PoolResult<()>)
        requires
            old(self).wf(),
        ensures
            final(self).wf(),
            r is Err ==> *final(self) == *old(self),
            old(self).config.admin is None ==> r == refused::<()>(PoolError::NotInitialized),
            old(self).config.admin matches Some(admin) ==> {
                &&& ok_quiet(r, admin, seq![])
                &&& final(self).config == PoolConfig { whitelist_enabled: true, ..old(self).config }
                &&& final(self).totals == old(self).totals
                &&& final(self).same_records(old(self))
            },
    {
        self.set_whitelist_enabled(true)
    }

    /// Stop enforcing the whitelist (the admin authorizes).
    pub fn disable_whitelist(&mut self) -> (r: PoolResult<()>)
        requires
            old(self).wf(),
        ensures
            final(self).wf(),
            r is Err ==> *final(self) == *old(self),
            old(self).config.admin is None ==> r == refused::<()>(PoolError::NotInitialized),
            old(self).config.admin matches Some(admin) ==> {
                &&& ok_quiet(r, admin, seq![])
                &&& final(self).config == PoolConfig { whitelist_enabled: false, ..old(self).config }
                &&& final(self).totals == old(self).totals
                &&& final(self).same_records(old(self))
            },
    {
        self.set_whitelist_enabled(false)
    }

    /// Add `user` to the whitelist (the admin authorizes); adding a member
    /// again changes nothing. Traps when the list is full.
    pub fn add_to_whitelist(&mut self, user: Address) -> (r: PoolResult<()>)
        requires
            old(self).wf(),
        ensures
            final(self).wf(),
            r is Err ==> *final(self) == *old(self),
            old(self).config.admin is None ==> r == refused::<()>(PoolError::NotInitialized),
            old(self).config.admin matches Some(admin) ==> {
                if !old(self).whitelist@.contains(user) && old(self).whitelist@.len() == u32::MAX {
                    r == trapped::<()>(Trap::ArithmeticOverflow)
                } else {
                    &&& ok_quiet(r, admin, seq![])
                    &&& final(self).whitelist@ == list_add(old(self).whitelist@, user)
                    &&& final(self).config == old(self).config
                    &&& final(self).totals == old(self).totals
                    &&& final(self).accounts.entries@ == old(self).accounts.entries@
                }
            },
    {
        let admin = match self.config.admin {
            None => {
                return Err(Fault::Error(PoolError::NotInitialized));
            },
            Some(a) => a,
        };
        if !list_contains(&self.whitelist, &user) {
            if self.whitelist.len() >= 4294967295usize {
                return Err(Fault::Trap(Trap::ArithmeticOverflow));
            }
            proof {
                lemma_list_add(self.whitelist@, user);
            }
            self.whitelist.push(user);
        }
        Ok(Receipt::new((), Some(admin), Vec::new(), Vec::new()))
    }

    /// Remove `user` from the whitelist (the admin authorizes); removing a
    /// non-member changes nothing.
    pub fn remove_from_whitelist(&mut self, user: Address) -> (r: PoolResult<()>)
        requires
            old(self).wf(),
        ensures
            final(self).wf(),
            r is Err ==> *final(self) == *old(self),
            old(self).config.admin is None ==> r == refused::<()>(PoolError::NotInitialized),
            old(self).config.admin matches Some(admin) ==> {
                &&& ok_quiet(r, admin, seq![])
                &&& final(self).whitelist@ == list_remove(old(self).whitelist@, user)
                &&& final(self).config == old(self).config
                &&& final(self).totals == old(self).totals
                &&& final(self).accounts.entries@ == old(self).accounts.entries@
            },
    {
        let admin = match self.config.admin {
            None => {
                return Err(Fault::Error(PoolError::NotInitialized));
            },
            Some(a) => a,
        };
        proof {
            lemma_list_remove(self.whitelist@, user);
        }
        self.whitelist = list_without(&self.whitelist, &user);
        Ok(Receipt::new((), Some(admin), Vec::new(), Vec::new()))
    }

    /// Whether `user` is on the whitelist.
    pub fn is_whitelisted(&self, user: Address) -> (r: bool)
        ensures
            r == self.whitelist@.contains(user),
    {
        list_contains(&self.whitelist, &user)
    }

    /// The whitelisted addresses from position `offset`, at most `limit` of
    /// them, with the list's length.
    pub fn get_whitelisted_users(&self, offset: u32, limit: u32) -> (r: Result<ListWhitelistedResponse, PoolError>)
        requires
            self.wf(),
        ensures
            self.config.admin is None ==> r is Err && r->Err_0 == PoolError::NotInitialized,
            self.config.admin is Some ==> {
                let n = self.whitelist@.len();
                &&& r is Ok
                &&& r->Ok_0.total == n
                &&& r->Ok_0.users@ == if offset >= n {
                    Seq::<Address>::empty()
                } else if offset + limit >= n {
                    self.whitelist@.subrange(offset as int, n as int)
                } else {
                    self.whitelist@.subrange(offset as int, offset + limit)
                }
            },
    {
        if self.config.admin.is_none() {
            return Err(PoolError::NotInitialized);
        }
        let total = self.whitelist.len() as u32;
        let mut page: Vec<Address> = Vec::new();
        if offset >= total {
            return Ok(ListWhitelistedResponse { users: page, total });
        }
        let mut i: u32 = offset;
        let mut count: u32 = 0;
        while i < total && count < limit
            invariant
                total == self.whitelist@.len(),
                offset <= i,
                i == offset + count,
                count <= limit,
                i <= total,
                page@ == self.whitelist@.subrange(offset as int, i as int),
            decreases total - i,
        {
            page.push(self.whitelist[i as usize]);
            i = i + 1;
            count = count + 1;
        }
        Ok(ListWhitelistedResponse { users: page, total })
    }

    /// Add every address of `users` (the admin authorizes); at most fifty
    /// addresses may be given to an initialized pool. Traps when the list
    /// would overflow.
    pub fn batch_add_to_whitelist(&mut self, users: &Vec<Address>) -> (r: PoolResult<()>)
        requires
            old(self).wf(),
            old(self).config.admin is Some ==> users@.len() <= MAX_BATCH,
        ensures
            final(self).wf(),
            r is Err ==> *final(self) == *old(self),
            old(self).config.admin is None ==> r == refused::<()>(PoolError::NotInitialized),
            old(self).config.admin matches Some(admin) ==> {
                if list_add_all(old(self).whitelist@, users@).len() > u32::MAX {
                    r == trapped::<()>(Trap::ArithmeticOverflow)
                } else {
                    &&& ok_quiet(r, admin, seq![])
                    &&& final(self).whitelist@ == list_add_all(old(self).whitelist@, users@)
                    &&& final(self).config == old(self).config
                    &&& final(self).totals == old(self).totals
                    &&& final(self).accounts.entries@ == old(self).accounts.entries@
                }
            },
    {
        let admin = match self.config.admin {
            None => {
                return Err(Fault::Error(PoolError::NotInitialized));
            },
            Some(a) => a,
        };
        let mut list: Vec<Address> = Vec::new();
        let mut k: usize = 0;
        while k < self.whitelist.len()
            invariant
                k <= self.whitelist@.len(),
                list@ == self.whitelist@.take(k as int),
            decreases self.whitelist@.len() - k,
        {
            list.push(self.whitelist[k]);
            k = k + 1;
        }
        assert(list@ =~= self.whitelist@);
        let mut i: usize = 0;
        while i < users.len()
            invariant
                i <= users@.len() <= MAX_BATCH,
                list@ == list_add_all(self.whitelist@, users@.take(i as int)),
                no_duplicates(self.whitelist@),
                self.whitelist@.len() <= u32::MAX,
            decreases users@.len() - i,
        {
            let u = users[i];
            assert(users@.take(i + 1).drop_last() =~= users@.take(i as int));
            proof {
                lemma_list_add_all(self.whitelist@, users@.take(i as int));
            }
            if !list_contains(&list, &u) {
                list.push(u);
            }
            i = i + 1;
        }
        assert(users@.take(users@.len() as int) =~= users@);
        proof {
            lemma_list_add_all(self.whitelist@, users@);
        }
        if list.len() > 4294967295usize {
            return Err(Fault::Trap(Trap::ArithmeticOverflow));
        }
        self.whitelist = list;
        Ok(Receipt::new((), Some(admin), Vec::new(), Vec::new()))
    }

    /// Remove every address of `users` (the admin authorizes); at most fifty
    /// addresses may be given to an initialized pool.
    pub fn batch_remove_from_whitelist(&mut self, users: &Vec<Address>) -> (r: PoolResult<()>)
        requires
            old(self).wf(),
            old(self).config.admin is Some ==> users@.len() <= MAX_BATCH,
        ensures
            final(self).wf(),
            r is Err ==> *final(self) == *old(self),
            old(self).config.admin is None ==> r == refused::<()>(PoolError::NotInitialized),
            old(self).config.admin matches Some(admin) ==> {
                &&& ok_quiet(r, admin, seq![])
                &&& final(self).whitelist@ == list_remove_all(old(self).whitelist@, users@)
                &&& final(self).config == old(self).config
                &&& final(self).totals == old(self).totals
                &&& final(self).accounts.entries@ == old(self).accounts.entries@
            },
    {
        let admin = match self.config.admin {
            None => {
                return Err(Fault::Error(PoolError::NotInitialized));
            },
            Some(a) => a,
        };
        let ghost initial = self.whitelist@;
        let mut i: usize = 0;
        while i < users.len()
            invariant
                i <= users@.len(),
                self.whitelist@ == list_remove_all(initial, users@.take(i as int)),
                no_duplicates(initial),
                initial.len() <= u32::MAX,
                self.config == old(self).config,
                self.totals == old(self).totals,
                self.accounts.entries@ == old(self).accounts.entries@,
            decreases users@.len() - i,
        {
            let u = users[i];
            assert(users@.take(i + 1).drop_last() =~= users@.take(i as int));
            self.whitelist = list_without(&self.whitelist, &u);
            i = i + 1;
        }
        assert(users@.take(users@.len() as int) =~= users@);
        proof {
            lemma_list_remove_all(initial, users@);
        }
        Ok(Receipt::new((), Some(admin), Vec::new(), Vec::new()))
    }

    /// The number of whitelisted addresses.
    pub fn whitelist_count(&self) -> (r: Result<u32, PoolError>)
        requires
            self.wf(),
        ensures
            r == self.read(self.whitelist@.len() as u32),
    {
        if self.config.admin.is_none() {
            return Err(PoolError::NotInitialized);
        }
        Ok(self.whitelist.len() as u32)
    }

    /// Same as `whitelist_count`.
    pub fn get_whitelist_count(&self) -> (r: Result<u32, PoolError>)
        requires
            self.wf(),
        ensures
            r == self.read(self.whitelist@.len() as u32),
    {
        self.whitelist_count()
    }
}

} // verus!
