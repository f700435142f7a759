use vstd::prelude::*;

verus! {

/// The interaction shape of a method.
#[derive(PartialEq, Eq, Structural, Clone, Copy, Debug)]
pub enum CallShape {
    Unary,
    ServerStream,
    BidiStream,
}

/// The handler functions this host can run.
#[derive(PartialEq, Eq, Structural, Clone, Copy, Debug)]
pub enum Handler {
    Payment,
    TransactionHistory,
    Chat,
}

/// What a registered method runs, and in which shape.
#[derive(PartialEq, Eq, Structural, Clone, Copy, Debug)]
pub struct HandlerDescriptor {
    pub shape: CallShape,
    pub handler: Handler,
}

/// Why a registration was refused.
#[derive(PartialEq, Eq, Structural, Clone, Copy, Debug)]
pub enum RegistryError {
    /// The (service, method) pair is registered already.
    DuplicateMethod,
}

/// One registered method.
#[derive(Debug)]
pub struct RegistryEntry {
    pub service: String,
    pub method: String,
    pub descriptor: HandlerDescriptor,
}

/// A registered method as the contracts see it: service name, method name and
/// descriptor.
pub type EntryView = (Seq<char>, Seq<char>, HandlerDescriptor);

/// Whether some entry is registered under the pair (`s`, `m`).
pub open spec fn has_key(es: Seq<EntryView>, s: Seq<char>, m: Seq<char>) -> bool {
    exists|i: int| 0 <= i < es.len() && (#[trigger] es[i]).0 == s && es[i].1 == m
}

/// No pair is registered twice.
pub open spec fn keys_unique(es: Seq<EntryView>) -> bool {
    forall|i: int, j: int|
        0 <= i < j < es.len() ==> !((#[trigger] es[i]).0 == (#[trigger] es[j]).0 && es[i].1 == es[j].1)
}

/// Maps (service, method) pairs to handler descriptors. It is filled at
/// start-up and only read afterwards.
pub struct ServiceRegistry {
    entries: Vec<RegistryEntry>,
}

impl View for ServiceRegistry {
    type V = Seq<EntryView>;

    closed spec fn view(&self) -> Seq<EntryView> {
        Seq::new(
            self.entries@.len(),
            |i: int| (self.entries@[i].service@, self.entries@[i].method@, self.entries@[i].descriptor),
        )
    }
}

impl ServiceRegistry {
    pub open spec fn wf(&self) -> bool {
        keys_unique(self@)
    }

    /// An empty registry.
    pub fn new() -> (r: Self)
        ensures
            r.wf(),
            r@ == Seq::<EntryView>::empty(),
    {
        let r = ServiceRegistry { entries: Vec::new() };
        assert(r@ =~= Seq::<EntryView>::empty());
        r
    }

    /// The number of registered methods.
    pub fn len(&self) -> (r: usize)
        ensures
            r as nat == self@.len(),
    {
        self.entries.len()
    }

    /// The position of the entry registered under (`service`, `method`).
    fn position(&self, service: &String, method: &String) -> (r: Option<usize>)
        ensures
            r is None <==> !has_key(self@, service@, method@),
            r matches Some(i) ==> i < self@.len() && self@[i as int].0 == service@ && self@[i as int].1
                == method@,
    {
        let mut i: usize = 0;
        while i < self.entries.len()
            invariant
                i <= self.entries@.len(),
                forall|j: int| 0 <= j < i ==> !((#[trigger] self@[j]).0 == service@ && self@[j].1 == method@),
            decreases self.entries.len() - i,
        {
            let e = &self.entries[i];
            if e.service == *service && e.method == *method {
                assert(self@[i as int].0 == service@ && self@[i as int].1 == method@);
                return Some(i);
            }
            i = i + 1;
        }
        None
    }

    /// Adds a method. Refused with `DuplicateMethod`, leaving the registry as
    /// it was, when the pair is registered already.
    pub fn register(&mut self, service: &str, method: &str, shape: CallShape, handler: Handler) -> (r: Result<(), RegistryError>)
        requires
            old(self).wf(),
        ensures
            final(self).wf(),
            has_key(old(self)@, service@, method@) ==> r == Err::<(), RegistryError>(RegistryError::DuplicateMethod)
                && final(self)@ == old(self)@,
            !has_key(old(self)@, service@, method@) ==> r == Ok::<(), RegistryError>(())
                && final(self)@ == old(self)@.push((service@, method@, HandlerDescriptor { shape, handler })),
    {
        let service = String::from_str(service);
        let method = String::from_str(method);
        if self.position(&service, &method).is_some() {
            return Err(RegistryError::DuplicateMethod);
        }
        let ghost before = self@;
        self.entries.push(RegistryEntry { service, method, descriptor: HandlerDescriptor { shape, handler } });
        assert(self@ =~= before.push((service@, method@, HandlerDescriptor { shape, handler })));
        Ok(())
    }

    /// The descriptor registered under (`service`, `method`), if any. Reads
    /// only; allocates nothing.
    pub fn resolve(&self, service: &String, method: &String) -> (r: Option<HandlerDescriptor>)
        requires
            self.wf(),
        ensures
            r is None <==> !has_key(self@, service@, method@),
            r matches Some(d) ==> exists|i: int|
                0 <= i < self@.len() && (#[trigger] self@[i]) == (service@, method@, d),
    {
        match self.position(service, method) {
            Some(i) => {
                let d = self.entries[i].descriptor;
                assert(self@[i as int] == (service@, method@, d));
                Some(d)
            },
            None => None,
        }
    }
}

/// Registering is refused exactly on pairs already present, and a refusal
/// changes nothing: after a second registration of a pair only the first
/// descriptor is found under it.
pub proof fn lemma_first_registration_kept(
    es: Seq<EntryView>,
    s: Seq<char>,
    m: Seq<char>,
    d: HandlerDescriptor,
)
    requires
        keys_unique(es),
        !has_key(es, s, m),
    ensures
        has_key(es.push((s, m, d)), s, m),
        keys_unique(es.push((s, m, d))),
        forall|i: int|
            0 <= i < es.len() + 1 && (#[trigger] es.push((s, m, d))[i]).0 == s && es.push((s, m, d))[i].1 == m
                ==> es.push((s, m, d))[i].2 == d,
{
    let es2 = es.push((s, m, d));
    assert(es2[es.len() as int] == (s, m, d));
    assert forall|i: int| 0 <= i < es.len() + 1 && (#[trigger] es2[i]).0 == s && es2[i].1 == m implies es2[i].2 == d by {
        if i < es.len() {
            assert(es2[i] == es[i]);
        }
    }
    assert forall|i: int, j: int| 0 <= i < j < es2.len() implies !((#[trigger] es2[i]).0 == (#[trigger] es2[j]).0 && es2[i].1 == es2[j].1) by {
        if j < es.len() {
            assert(es2[i] == es[i] && es2[j] == es[j]);
        } else {
            assert(es2[i] == es[i]);
        }
    }
}

} // verus!
