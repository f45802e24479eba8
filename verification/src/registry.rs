//! The service registry: each registered service occupies the next
//! contiguous range of method ids, in registration order, so a method id is
//! registered exactly when it is below the table's length. Registration
//! completes before serving starts; the table is read-only afterwards.

use vstd::prelude::*;

use crate::error::ServerError;

verus! {

/// One registered method: which service owns it (by registration order),
/// its position among that service's methods, and the names shown by
/// introspection.
#[derive(Debug)]
pub struct ServiceMethod {
    pub service_index: usize,
    pub method_index: u32,
    pub service_name: String,
    pub method_name: String,
}

impl ServiceMethod {
    pub fn method_name(&self) -> (r: &String)
        ensures
            r@ == self.method_name@,
    {
        &self.method_name
    }

    pub fn service_name(&self) -> (r: &String)
        ensures
            r@ == self.service_name@,
    {
        &self.service_name
    }
}

/// Maps a contiguous integer method id to the service and method it was
/// registered for. The id space is dense: ids `0 .. len` are exactly the
/// registered ones.
pub struct ServiceTable {
    methods: Vec<ServiceMethod>,
    num_services: usize,
}

impl View for ServiceTable {
    type V = Seq<ServiceMethod>;

    closed spec fn view(&self) -> Seq<ServiceMethod> {
        self.methods@
    }
}

impl ServiceTable {
    /// How many services have been registered so far; the next registration
    /// gets this as its service index.
    pub closed spec fn spec_num_services(&self) -> int {
        self.num_services as int
    }

    /// Every entry's service index is below the registration count.
    pub open spec fn wf(&self) -> bool {
        forall|i: int|
            0 <= i < self@.len() ==> (#[trigger] self@[i]).service_index < self.spec_num_services()
    }

    /// An empty table: no methods, no services.
    pub fn new() -> (r: Self)
        ensures
            r@ == Seq::<ServiceMethod>::empty(),
            r.spec_num_services() == 0,
            r.wf(),
    {
        Self { methods: Vec::new(), num_services: 0 }
    }

    /// Number of registered methods; ids `0 .. num_methods()` are exactly
    /// the registered ones.
    pub fn num_methods(&self) -> (n: usize)
        ensures
            n == self@.len(),
    {
        self.methods.len()
    }

    /// Appends one service's methods at the next free contiguous id range
    /// and returns the service's first method id.
    pub fn register_service(&mut self, service_name: &str, method_names: &Vec<String>) -> (first:
        u32)
        requires
            old(self)@.len() + method_names@.len() <= u32::MAX,
            old(self).spec_num_services() < usize::MAX,
            old(self).wf(),
        ensures
            first == old(self)@.len(),
            final(self)@.len() == old(self)@.len() + method_names@.len(),
            forall|i: int| 0 <= i < old(self)@.len() ==> final(self)@[i] == old(self)@[i],
            forall|i: int|
                0 <= i < method_names@.len() ==> {
                    &&& (#[trigger] final(self)@[old(self)@.len() + i]).service_index == old(
                        self,
                    ).spec_num_services()
                    &&& final(self)@[old(self)@.len() + i].method_index == i
                    &&& final(self)@[old(self)@.len() + i].service_name@ == service_name@
                    &&& final(self)@[old(self)@.len() + i].method_name@ == method_names@[i]@
                },
            final(self).spec_num_services() == old(self).spec_num_services() + 1,
            final(self).wf(),
    {
        let first = self.methods.len();
        let svc = self.num_services;
        let n = method_names.len();
        let mut i: usize = 0;
        while i < n
            invariant
                i <= n,
                n == method_names@.len(),
                first == old(self)@.len(),
                first + n <= u32::MAX,
                svc == old(self).spec_num_services(),
                self.num_services == old(self).num_services,
                self.methods@.len() == first + i,
                forall|k: int| 0 <= k < first ==> self.methods@[k] == old(self)@[k],
                forall|k: int|
                    0 <= k < i ==> {
                        &&& (#[trigger] self.methods@[first + k]).service_index == svc
                        &&& self.methods@[first + k].method_index == k
                        &&& self.methods@[first + k].service_name@ == service_name@
                        &&& self.methods@[first + k].method_name@ == method_names@[k]@
                    },
            decreases n - i,
        {
            let entry = ServiceMethod {
                service_index: svc,
                method_index: i as u32,
                service_name: service_name.to_owned(),
                method_name: method_names[i].clone(),
            };
            self.methods.push(entry);
            i = i + 1;
        }
        self.num_services = svc + 1;
        proof {
            assert forall|k: int| 0 <= k < self@.len() implies (#[trigger] self@[k]).service_index
                < self.spec_num_services() by {
                if k < first {
                    assert(self@[k] == old(self)@[k]);
                    assert(old(self)@[k].service_index < old(self).spec_num_services());
                } else {
                    assert(self@[first + (k - first)].service_index == svc);
                }
            }
        }
        first as u32
    }

    /// Looks a method id up; succeeds exactly on the registered ids.
    pub fn get_service(&self, method_id: u32) -> (r: Result<ServiceMethod, ServerError>)
        ensures
            method_id < self@.len() ==> (r matches Ok(m) && {
                &&& m.service_index == self@[method_id as int].service_index
                &&& m.method_index == self@[method_id as int].method_index
                &&& m.service_name@ == self@[method_id as int].service_name@
                &&& m.method_name@ == self@[method_id as int].method_name@
            }),
            method_id >= self@.len() ==> r == Err::<ServiceMethod, ServerError>(
                ServerError::ErrorServiceMethodId(),
            ),
    {
        let id = method_id as usize;
        if id < self.methods.len() {
            let entry = &self.methods[id];
            Ok(ServiceMethod {
                service_index: entry.service_index,
                method_index: entry.method_index,
                service_name: entry.service_name.clone(),
                method_name: entry.method_name.clone(),
            })
        } else {
            Err(ServerError::ErrorServiceMethodId())
        }
    }

    /// Lists `(service_name, method_name)` for every method id in order.
    pub fn list_service(&self) -> (r: Vec<(String, String)>)
        ensures
            r@.len() == self@.len(),
            forall|i: int|
                0 <= i < r@.len() ==> (#[trigger] r@[i]).0@ == self@[i].service_name@
                    && r@[i].1@ == self@[i].method_name@,
    {
        let mut out: Vec<(String, String)> = Vec::new();
        let n = self.methods.len();
        let mut i: usize = 0;
        while i < n
            invariant
                i <= n,
                n == self@.len(),
                out@.len() == i,
                forall|k: int|
                    0 <= k < i ==> (#[trigger] out@[k]).0@ == self@[k].service_name@
                        && out@[k].1@ == self@[k].method_name@,
            decreases n - i,
        {
            let entry = &self.methods[i];
            out.push((entry.service_name.clone(), entry.method_name.clone()));
            i = i + 1;
        }
        out
    }
}

impl Default for ServiceTable {
    fn default() -> (r: Self)
        ensures
            r@ == Seq::<ServiceMethod>::empty(),
            r.spec_num_services() == 0,
            r.wf(),
    {
        ServiceTable::new()
    }
}

} // verus!
