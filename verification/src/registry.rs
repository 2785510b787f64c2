//! The worker registry: the orchestrator's authoritative in-memory map
//! from worker name to container handle, port and connection state,
//! together with the decision logic of the create, remove and invoke
//! operations.  No two registered workers ever share a name.
//!
//! The registry holds plain data only; starting containers and dialing
//! RPC endpoints is the caller's business.  A create is therefore split in
//! two: [`Registry::summon_plan`] validates the name and reserves a port,
//! the caller then builds, starts and dials the container, and
//! [`Registry::summon_commit`] records the worker once the dial succeeded.

use vstd::prelude::*;
use vstd::string::StringExecFns;

use crate::errors::ErrorKind;
use crate::errors::SorcererError;
use crate::names::container_name_for;
use crate::names::env_entry;
use crate::names::grpc_addr;
use crate::names::is_valid_apprentice_name;
use crate::names::port_env_entry;
use crate::names::spec_valid_name;
use crate::ports::PortAllocator;
use crate::text::spec_dec;
use crate::text::str_eq;

verus! {

/// One registered worker.
pub struct ApprenticeRecord {
    /// The worker's name, unique in the registry.
    pub name: String,
    /// The container the worker runs in.
    pub container_id: String,
    /// The RPC port the worker listens on.
    pub port: u16,
    /// Whether an RPC connection to the worker is established.  A worker
    /// discovered running but unreachable stays registered with
    /// `connected == false` and is surfaced only through the exclusion in
    /// [`Registry::list_connected`]; it is not redialed automatically.
    pub connected: bool,
}

/// The orchestrator's map from worker name to worker record.
pub struct Registry {
    records: Vec<ApprenticeRecord>,
}

/// What the orchestrator must do to bring a new worker up, as decided by
/// [`Registry::summon_plan`].
pub struct SummonPlan {
    /// The port reserved for the worker.
    pub port: u16,
    /// The name to create the container under.
    pub container_name: String,
    /// The `APPRENTICE_NAME=` and `GRPC_PORT=` entries for the container
    /// environment; the caller appends its credential entry.
    pub env: Vec<String>,
    /// The address to dial once the container runs.
    pub addr: String,
}

/// Why a create request is refused before any container work starts:
/// an invalid name, or a name already registered.
pub open spec fn spec_summon_refusal(reg: Registry, name: &str) -> Option<ErrorKind> {
    if !spec_valid_name(name) {
        Some(ErrorKind::InvalidName)
    } else if reg.spec_contains(name@) {
        Some(ErrorKind::AlreadyExists)
    } else {
        None
    }
}

impl Registry {
    /// The registered workers, in insertion order.
    pub closed spec fn rows(self) -> Seq<ApprenticeRecord> {
        self.records@
    }

    /// No two registered workers share a name.
    pub open spec fn wf(self) -> bool {
        forall|i: int, j: int|
            0 <= i < j < self.rows().len() ==> #[trigger] self.rows()[i].name@
                != #[trigger] self.rows()[j].name@
    }

    /// A worker of this name is registered.
    pub open spec fn spec_contains(self, name: Seq<char>) -> bool {
        exists|i: int| 0 <= i < self.rows().len() && #[trigger] self.rows()[i].name@ == name
    }

    /// An empty registry.
    pub fn new() -> (r: Registry)
        ensures
            r.rows().len() == 0,
            r.wf(),
    {
        Registry { records: Vec::new() }
    }

    /// How many workers are registered.
    pub fn len(&self) -> (r: usize)
        ensures
            r == self.rows().len(),
    {
        self.records.len()
    }

    /// The index of the worker of this name, if one is registered.
    fn find_index(&self, name: &str) -> (r: Option<usize>)
        ensures
            match r {
                Some(i) => i < self.rows().len() && self.rows()[i as int].name@ == name@,
                None => !self.spec_contains(name@),
            },
    {
        let n = self.records.len();
        let mut i: usize = 0;
        while i < n
            invariant
                0 <= i <= n,
                n == self.rows().len(),
                forall|j: int| 0 <= j < i ==> #[trigger] self.rows()[j].name@ != name@,
            decreases n - i,
        {
            if str_eq(self.records[i].name.as_str(), name) {
                return Some(i);
            }
            i = i + 1;
        }
        None
    }

    /// Whether a worker of this name is registered.
    pub fn contains_name(&self, name: &str) -> (r: bool)
        ensures
            r == self.spec_contains(name@),
    {
        self.find_index(name).is_some()
    }

    /// Decides a create request: refuses an invalid name, refuses a name
    /// already registered, and otherwise reserves a port and lays out the
    /// container name, environment and dial address for the new worker.
    /// The registry itself is not changed until [`Registry::summon_commit`].
    /// Only a request that will be accepted reserves a port, so only then
    /// must the allocator have room.
    pub fn summon_plan(&self, alloc: &mut PortAllocator, name: &str) -> (r: Result<
        SummonPlan,
        SorcererError,
    >)
        requires
            spec_summon_refusal(*self, name) is None ==> old(alloc).next() < u16::MAX as int,
        ensures
            match r {
                Ok(plan) => {
                    &&& spec_summon_refusal(*self, name) is None
                    &&& plan.port as int == old(alloc).next()
                    &&& final(alloc).next() == old(alloc).next() + 1
                    &&& plan.container_name@ == "apprentice-"@ + name@
                    &&& plan.env@.len() == 2
                    &&& plan.env@[0]@ == "APPRENTICE_NAME"@ + "="@ + name@
                    &&& plan.env@[1]@ == "GRPC_PORT="@ + spec_dec(plan.port as nat)
                    &&& plan.addr@ == "http://127.0.0.1:"@ + spec_dec(plan.port as nat)
                },
                Err(e) => {
                    &&& Some(e.kind()) == spec_summon_refusal(*self, name)
                    &&& *final(alloc) == *old(alloc)
                    &&& (e matches SorcererError::AlreadyExists(n) ==> n@ == name@)
                },
            },
    {
        if !is_valid_apprentice_name(name) {
            return Err(SorcererError::InvalidName);
        }
        if self.contains_name(name) {
            return Err(SorcererError::AlreadyExists(name.to_owned()));
        }
        let port = alloc.allocate();
        let mut env: Vec<String> = Vec::new();
        env.push(env_entry("APPRENTICE_NAME", name));
        env.push(port_env_entry(port));
        Ok(
            SummonPlan {
                port,
                container_name: container_name_for(name),
                env,
                addr: grpc_addr(port),
            },
        )
    }

    /// Records a worker whose container is up and whose RPC connection
    /// succeeded.  The caller must have checked the name is free, as
    /// [`Registry::summon_plan`] does.
    pub fn summon_commit(&mut self, name: &str, container_id: String, port: u16)
        requires
            old(self).wf(),
            !old(self).spec_contains(name@),
        ensures
            final(self).rows().len() == old(self).rows().len() + 1,
            final(self).rows().last().name@ == name@,
            final(self).rows().last().container_id == container_id,
            final(self).rows().last().port == port,
            final(self).rows().last().connected,
            final(self).rows().drop_last() == old(self).rows(),
            final(self).wf(),
            final(self).spec_contains(name@),
    {
        let rec = ApprenticeRecord { name: name.to_owned(), container_id, port, connected: true };
        self.records.push(rec);
        proof {
            assert(final(self).rows().drop_last() =~= old(self).rows());
            assert forall|i: int, j: int|
                0 <= i < j < final(self).rows().len() implies #[trigger] final(self).rows()[i].name@ != #[trigger] final(self).rows()[j].name@ by {
                if j == final(self).rows().len() - 1 {
                    assert(!old(self).spec_contains(final(self).rows()[j].name@));
                }
            }
        }
    }

    /// Records a worker found during discovery.  A record of the same name
    /// is replaced in place; a new name is appended.
    pub fn upsert(&mut self, rec: ApprenticeRecord)
        requires
            old(self).wf(),
        ensures
            final(self).wf(),
            final(self).spec_contains(rec.name@),
            if old(self).spec_contains(rec.name@) {
                exists|i: int|
                    0 <= i < old(self).rows().len() && old(self).rows()[i].name@ == rec.name@
                        && final(self).rows() == #[trigger] old(self).rows().update(i, rec)
            } else {
                final(self).rows() == old(self).rows().push(rec)
            },
    {
        let idx = self.find_index(rec.name.as_str());
        match idx {
            Some(i) => {
                let ghost old_rows = self.rows();
                let ghost the_name = rec.name@;
                self.records.set(i, rec);
                proof {
                    assert(final(self).rows() =~= old_rows.update(i as int, rec));
                    assert(final(self).rows()[i as int].name@ == the_name);
                    assert forall|a: int, b: int|
                        0 <= a < b < final(self).rows().len() implies #[trigger] final(self).rows()[a].name@ != #[trigger] final(self).rows()[b].name@ by {
                        assert(old_rows[a].name@ != old_rows[b].name@);
                        if a == i as int {
                            assert(final(self).rows()[a].name@ == old_rows[i as int].name@);
                            assert(final(self).rows()[b].name@ == old_rows[b].name@);
                        } else if b == i as int {
                            assert(final(self).rows()[b].name@ == old_rows[i as int].name@);
                            assert(final(self).rows()[a].name@ == old_rows[a].name@);
                        } else {
                            assert(final(self).rows()[a].name@ == old_rows[a].name@);
                            assert(final(self).rows()[b].name@ == old_rows[b].name@);
                        }
                    }
                }
            },
            None => {
                let ghost the_name = rec.name@;
                self.records.push(rec);
                proof {
                    assert(final(self).rows()[final(self).rows().len() - 1].name@ == the_name);
                    assert forall|a: int, b: int|
                        0 <= a < b < final(self).rows().len() implies #[trigger] final(self).rows()[a].name@ != #[trigger] final(self).rows()[b].name@ by {
                        assert(final(self).rows()[a].name@ == old(self).rows()[a].name@);
                        if b == final(self).rows().len() - 1 {
                            assert(old(self).rows()[a].name@ != the_name);
                        } else {
                            assert(final(self).rows()[b].name@ == old(self).rows()[b].name@);
                            assert(old(self).rows()[a].name@ != old(self).rows()[b].name@);
                        }
                    }
                }
            },
        }
    }

    /// Removes the worker of this name and hands its record back, or
    /// refuses with `NotFound`, leaving the registry untouched.  The
    /// record is removed whatever happens to the container afterwards, so
    /// a failed cleanup can never leave a stale entry behind.
    pub fn remove(&mut self, name: &str) -> (r: Result<ApprenticeRecord, SorcererError>)
        requires
            old(self).wf(),
        ensures
            final(self).wf(),
            match r {
                Ok(rec) => {
                    &&& rec.name@ == name@
                    &&& exists|i: int|
                        0 <= i < old(self).rows().len() && old(self).rows()[i] == rec && final(self).rows() == #[trigger] old(self).rows().remove(i)
                    &&& !final(self).spec_contains(name@)
                },
                Err(e) => {
                    &&& e.kind() == ErrorKind::NotFound
                    &&& (e matches SorcererError::NotFound(n) ==> n@ == name@)
                    &&& !old(self).spec_contains(name@)
                    &&& *final(self) == *old(self)
                },
            },
    {
        let idx = self.find_index(name);
        match idx {
            Some(i) => {
                let rec = self.records.remove(i);
                proof {
                    assert forall|a: int, b: int|
                        0 <= a < b < final(self).rows().len() implies #[trigger] final(self).rows()[a].name@ != #[trigger] final(self).rows()[b].name@ by {
                        if a < i as int {
                            if b < i as int {
                                assert(old(self).rows()[a].name@ != old(self).rows()[b].name@);
                            } else {
                                assert(old(self).rows()[a].name@ != old(self).rows()[b
                                    + 1].name@);
                            }
                        } else {
                            assert(old(self).rows()[a + 1].name@ != old(self).rows()[b
                                + 1].name@);
                        }
                    }
                    assert forall|k: int|
                        0 <= k < final(self).rows().len() implies #[trigger] final(self).rows()[k].name@ != name@ by {
                        if k < i as int {
                            assert(old(self).rows()[k].name@ != old(self).rows()[i as int].name@);
                        } else {
                            assert(old(self).rows()[k + 1].name@ != old(
                                self,
                            ).rows()[i as int].name@);
                        }
                    }
                }
                Ok(rec)
            },
            None => Err(SorcererError::NotFound(name.to_owned())),
        }
    }

    /// Decides an invoke or history request: the port to dial, or
    /// `NotFound` for an unregistered name, or `NotConnected` for a worker
    /// without a live RPC connection.
    pub fn cast_target(&self, name: &str) -> (r: Result<u16, SorcererError>)
        ensures
            match r {
                Ok(port) => exists|i: int|
                    0 <= i < self.rows().len() && #[trigger] self.rows()[i].name@ == name@
                        && self.rows()[i].connected && self.rows()[i].port == port,
                Err(e) => {
                    &&& (e.kind() == ErrorKind::NotFound || e.kind() == ErrorKind::NotConnected)
                    &&& (e.kind() == ErrorKind::NotFound <==> !self.spec_contains(name@))
                    &&& (e matches SorcererError::NotFound(n) ==> n@ == name@)
                    &&& (e matches SorcererError::NotConnected(n) ==> n@ == name@)
                    &&& (e.kind() == ErrorKind::NotConnected ==> exists|i: int|
                        0 <= i < self.rows().len() && #[trigger] self.rows()[i].name@ == name@
                            && !self.rows()[i].connected)
                },
            },
    {
        match self.find_index(name) {
            Some(i) => {
                if self.records[i].connected {
                    Ok(self.records[i].port)
                } else {
                    Err(SorcererError::NotConnected(name.to_owned()))
                }
            },
            None => Err(SorcererError::NotFound(name.to_owned())),
        }
    }

    /// The names of the workers a caller can talk to, in registration
    /// order: workers that are registered but unreachable are excluded.
    pub fn list_connected(&self) -> (r: Vec<String>)
        ensures
            r@ == connected_names(self.rows()),
    {
        let n = self.records.len();
        let mut out: Vec<String> = Vec::new();
        let mut i: usize = 0;
        while i < n
            invariant
                0 <= i <= n,
                n == self.rows().len(),
                out@ == connected_names(self.rows().take(i as int)),
            decreases n - i,
        {
            proof {
                assert(self.rows().take(i + 1).drop_last() =~= self.rows().take(i as int));
                assert(self.rows().take(i + 1).last() == self.rows()[i as int]);
            }
            if self.records[i].connected {
                out.push(self.records[i].name.clone());
                proof {
                    assert(out@ =~= connected_names(self.rows().take(i + 1)));
                }
            }
            i = i + 1;
        }
        assert(self.rows().take(n as int) =~= self.rows());
        out
    }

    /// A copy of every record, for read-only fan-out over the fleet.
    pub fn snapshot(&self) -> (r: Vec<ApprenticeRecord>)
        ensures
            r@.len() == self.rows().len(),
            forall|i: int| 0 <= i < r@.len() ==> r@[i] == self.rows()[i],
    {
        let n = self.records.len();
        let mut out: Vec<ApprenticeRecord> = Vec::new();
        let mut i: usize = 0;
        while i < n
            invariant
                0 <= i <= n,
                n == self.rows().len(),
                out@.len() == i,
                forall|k: int| 0 <= k < i ==> out@[k] == self.rows()[k],
            decreases n - i,
        {
            let rec = ApprenticeRecord {
                name: self.records[i].name.clone(),
                container_id: self.records[i].container_id.clone(),
                port: self.records[i].port,
                connected: self.records[i].connected,
            };
            out.push(rec);
            i = i + 1;
        }
        out
    }
}

/// The `successes/total` fraction a batch operation reports once every
/// item has been tried.
pub fn summary_fraction(successes: usize, total: usize) -> (r: String)
    ensures
        r@ == spec_dec(successes as nat) + "/"@ + spec_dec(total as nat),
{
    let mut s = crate::text::u64_to_string(successes as u64);
    s.append("/");
    let t = crate::text::u64_to_string(total as u64);
    s.append(t.as_str());
    s
}

/// The names of the connected records of `rs`, in order.
pub open spec fn connected_names(rs: Seq<ApprenticeRecord>) -> Seq<String>
    decreases rs.len(),
{
    if rs.len() == 0 {
        Seq::empty()
    } else if rs.last().connected {
        connected_names(rs.drop_last()).push(rs.last().name)
    } else {
        connected_names(rs.drop_last())
    }
}

/// A create immediately followed by a create of the same name is refused
/// with `AlreadyExists`: once a worker of a valid name is recorded, a
/// second create of that name can only be refused that way.
pub proof fn lemma_create_then_create(r1: Registry, r2: Registry, name: &str)
    requires
        spec_summon_refusal(r1, name) is None,
        r2.rows().len() == r1.rows().len() + 1,
        r2.rows().last().name@ == name@,
        r2.rows().drop_last() == r1.rows(),
    ensures
        spec_summon_refusal(r2, name) == Some(ErrorKind::AlreadyExists),
{
    assert(r2.rows()[r2.rows().len() - 1].name@ == name@);
}

} // verus!
