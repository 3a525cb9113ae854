//! Systems: named functions that the engine runs once per frame, the
//! collections that hold them, and the errors they report. What a system
//! function is (an async closure over the world) is left to the type
//! parameter `F`; running one is the engine loop's job.

pub mod errors;

use vstd::prelude::*;

verus! {

/// A system function of type `F`, wrapped for storage in a system.
pub struct AsyncSystemClosure<F> {
    func: F,
}

impl<F> AsyncSystemClosure<F> {
    /// The wrapped function.
    pub closed spec fn func_spec(&self) -> F {
        self.func
    }

    /// Wrap a function.
    pub fn new(func: F) -> (c: Self)
        ensures
            c.func_spec() == func,
    {
        AsyncSystemClosure { func }
    }

    /// The wrapped function.
    pub fn func(&self) -> (r: &F)
        ensures
            *r == self.func_spec(),
    {
        &self.func
    }
}

/// A system: a name and the function that runs when the system is called.
pub struct AsyncSystem<F> {
    name: &'static str,
    func: F,
}

impl<F> AsyncSystem<F> {
    /// The name of the system.
    pub closed spec fn name_spec(&self) -> &'static str {
        self.name
    }

    /// The function of the system.
    pub closed spec fn func_spec(&self) -> F {
        self.func
    }

    /// A system of the given name and function.
    pub fn new(name: &'static str, func: F) -> (s: Self)
        ensures
            s.name_spec() == name,
            s.func_spec() == func,
    {
        AsyncSystem { name, func }
    }

    /// The name of the system.
    pub fn name(&self) -> (r: &'static str)
        ensures
            r == self.name_spec(),
    {
        self.name
    }

    /// The function of the system.
    pub fn func(&self) -> (r: &F)
        ensures
            *r == self.func_spec(),
    {
        &self.func
    }
}

/// A system of the given name whose function is the closure `func`.
pub fn system<F>(name: &'static str, func: F) -> (s: AsyncSystem<AsyncSystemClosure<F>>)
    ensures
        s.name_spec() == name,
        s.func_spec().func_spec() == func,
{
    AsyncSystem::new(name, AsyncSystemClosure::new(func))
}

/// Collections of systems.
pub trait SystemCollection<F> {
    /// Add a system to the collection.
    fn add_system(&mut self, system: AsyncSystem<F>);

    /// All systems of the collection, in the order they were added.
    fn systems(&self) -> &[AsyncSystem<F>];
}

/// The systems that the user of the engine provides, in the order added.
pub struct ExternalSystemCollection<F> {
    async_systems: Vec<AsyncSystem<F>>,
}

impl<F> ExternalSystemCollection<F> {
    /// The systems of the collection, in the order they were added.
    pub closed spec fn systems_spec(&self) -> Seq<AsyncSystem<F>> {
        self.async_systems@
    }

    /// An empty collection.
    pub fn new() -> (c: Self)
        ensures
            c.systems_spec() == Seq::<AsyncSystem<F>>::empty(),
    {
        ExternalSystemCollection { async_systems: Vec::new() }
    }
}

impl<F> SystemCollection<F> for ExternalSystemCollection<F> {
    /// Add a system after those already in the collection.
    fn add_system(&mut self, system: AsyncSystem<F>)
        ensures
            final(self).systems_spec() == old(self).systems_spec().push(system),
    {
        self.async_systems.push(system);
    }

    /// All systems of the collection, in the order they were added.
    fn systems(&self) -> (r: &[AsyncSystem<F>])
        ensures
            r@ == self.systems_spec(),
    {
        self.async_systems.as_slice()
    }
}

impl<F> Default for ExternalSystemCollection<F> {
    /// An empty collection.
    fn default() -> (c: Self)
        ensures
            c.systems_spec() == Seq::<AsyncSystem<F>>::empty(),
    {
        Self::new()
    }
}

} // verus!
