//! One guest WebAssembly module in a `wasmtime` sandbox: the engine, its
//! store and every handle taken from them live together in a `Guest`, so a
//! handle is only ever used with the store it belongs to. A ghost model
//! follows what the sandbox holds: the limits it was built with, the module,
//! the fuel, the guest's linear memory and each call of its `run` function.

use vstd::prelude::*;

verus! {

#[verifier::external_type_specification]
#[verifier::external_body]
pub struct ExEngine(wasmtime::Engine);

#[verifier::external_type_specification]
#[verifier::external_body]
pub struct ExModule(wasmtime::Module);

#[verifier::external_type_specification]
#[verifier::external_body]
pub struct ExStoreLimits(wasmtime::StoreLimits);

#[verifier::external_type_specification]
#[verifier::external_body]
#[verifier::reject_recursive_types(T)]
pub struct ExStore<T>(wasmtime::Store<T>);

#[verifier::external_type_specification]
#[verifier::external_body]
pub struct ExInstance(wasmtime::Instance);

#[verifier::external_type_specification]
#[verifier::external_body]
pub struct ExMemory(wasmtime::Memory);

#[verifier::external_type_specification]
#[verifier::external_body]
#[verifier::reject_recursive_types(Params)]
#[verifier::reject_recursive_types(Results)]
pub struct ExTypedFunc<Params, Results>(wasmtime::TypedFunc<Params, Results>);

/// How the engine is configured: fuel counting on or off, and the sizes
/// (in bytes) of the static memory reservation and of the address space
/// reserved for a memory's growth.
pub struct EngineSettings {
    pub consume_fuel: bool,
    pub static_memory_maximum_size: u64,
    pub dynamic_memory_reserved_for_growth: u64,
}

/// The limits installed in the store: bytes of linear memory, and how many
/// instances, memories and tables may exist.
pub struct StoreSettings {
    pub memory_size: usize,
    pub instances: usize,
    pub memories: usize,
    pub tables: usize,
}

/// One call of the guest's `run`: its arguments, the guest memory before
/// and after it, what it returned (the trap or error text on failure), and
/// the fuel left after it.
pub struct GuestCall {
    pub args: (i32, i32, i32, i32),
    pub before: Seq<u8>,
    pub result: Result<i32, Seq<char>>,
    pub after: Seq<u8>,
    pub fuel_left: u64,
}

/// What a `Guest` holds: its store limits, the module compiled into it,
/// the fuel given to it and the fuel left in its store, whether it is
/// instantiated and its `memory` and `run` exports were found, the guest's
/// linear memory, and the calls made.
pub struct GuestView {
    pub store: (nat, nat, nat, nat),
    pub module: Option<Seq<u8>>,
    pub fuel: Option<nat>,
    pub fuel_left: u64,
    pub instantiated: bool,
    pub has_memory: bool,
    pub has_run: bool,
    pub memory: Seq<u8>,
    pub calls: Seq<GuestCall>,
}

/// A sandbox for one guest module.
pub struct Guest {
    engine: wasmtime::Engine,
    store: wasmtime::Store<wasmtime::StoreLimits>,
    module: Option<wasmtime::Module>,
    instance: Option<wasmtime::Instance>,
    memory: Option<wasmtime::Memory>,
    run: Option<wasmtime::TypedFunc<(i32, i32, i32, i32), i32>>,
    model: Ghost<GuestView>,
}

/// The model of a sandbox that has just been made with the store limits
/// `store`: nothing compiled, no fuel given, no memory, no calls.
pub open spec fn fresh_guest(store: StoreSettings) -> GuestView {
    GuestView {
        store: (store.memory_size as nat, store.instances as nat, store.memories as nat, store.tables as nat),
        module: None,
        fuel: None,
        fuel_left: 0,
        instantiated: false,
        has_memory: false,
        has_run: false,
        memory: Seq::empty(),
        calls: Seq::empty(),
    }
}

impl View for Guest {
    type V = GuestView;

    closed spec fn view(&self) -> GuestView {
        self.model@
    }
}

/// The value or text of a call result.
pub open spec fn call_view(r: Result<i32, String>) -> Result<i32, Seq<char>> {
    match r {
        Ok(v) => Ok(v),
        Err(e) => Err(e@),
    }
}

/// `wasmtime::Engine::new` with a `Config` set from `engine`, then
/// `wasmtime::Store::new` on that engine with `StoreLimitsBuilder` limits set
/// from `store` installed as its limiter. The engine and store are handed
/// out only to be held together in a `Guest`. Whether the engine can be
/// built, and its error text, are not stated.
#[verifier::external_body]
fn engine_and_store(engine: &EngineSettings, store: &StoreSettings) -> (r: Result<
    (wasmtime::Engine, wasmtime::Store<wasmtime::StoreLimits>),
    String,
>) {
    let mut config = wasmtime::Config::new();
    config.consume_fuel(engine.consume_fuel);
    config.static_memory_maximum_size(engine.static_memory_maximum_size);
    config.dynamic_memory_reserved_for_growth(engine.dynamic_memory_reserved_for_growth);
    let e = wasmtime::Engine::new(&config).map_err(|e| e.to_string())?;
    let limits = wasmtime::StoreLimitsBuilder::new().memory_size(store.memory_size).instances(store.instances)
        .memories(store.memories).tables(store.tables).build();
    let mut s = wasmtime::Store::new(&e, limits);
    s.limiter(|state| state);
    Ok((e, s))
}

impl Guest {
    /// Every handle is there exactly when the model says so.
    #[verifier::type_invariant]
    spec fn handles_match(&self) -> bool {
        &&& self.module is Some <==> self.model@.module is Some
        &&& self.instance is Some <==> self.model@.instantiated
        &&& self.memory is Some <==> self.model@.has_memory
        &&& self.run is Some <==> self.model@.has_run
        &&& self.model@.has_memory ==> self.model@.instantiated
        &&& self.model@.has_run ==> self.model@.instantiated
        &&& self.model@.instantiated ==> self.model@.module is Some
    }

    /// A fresh sandbox: an engine configured by `engine` and a store limited
    /// by `store`, nothing compiled yet. The error is the engine's.
    pub fn create(engine: &EngineSettings, store: &StoreSettings) -> (r: Result<Guest, String>)
        ensures
            r matches Ok(g) ==> g@ == fresh_guest(*store),
    {
        let (e, s) = engine_and_store(engine, store)?;
        Ok(
            Guest {
                engine: e,
                store: s,
                module: None,
                instance: None,
                memory: None,
                run: None,
                model: Ghost(fresh_guest(*store)),
            },
        )
    }

    /// `wasmtime::Module::new` on this sandbox's engine (binary or text
    /// module); the module is kept. Whether it compiles, and the error text,
    /// are not stated.
    #[verifier::external_body]
    pub(crate) fn compile(&mut self, wasm: &[u8]) -> (r: Result<(), String>)
        requires
            old(self)@.module is None,
        ensures
            r is Ok ==> final(self)@ == (GuestView { module: Some(wasm@), ..old(self)@ }),
            r is Err ==> final(self)@ == old(self)@,
    {
        match wasmtime::Module::new(&self.engine, wasm) {
            Ok(m) => {
                self.module = Some(m);
                Ok(())
            },
            Err(e) => Err(e.to_string()),
        }
    }

    /// `wasmtime::Store::set_fuel` on this sandbox's store; it fails, changing
    /// nothing, when the engine does not count fuel, and otherwise leaves
    /// exactly `fuel` in the store. Which of the two happens is not stated.
    #[verifier::external_body]
    pub(crate) fn set_fuel(&mut self, fuel: u64) -> (r: Result<(), String>)
        ensures
            r is Ok ==> final(self)@ == (GuestView { fuel: Some(fuel as nat), fuel_left: fuel, ..old(self)@ }),
            r is Err ==> final(self)@ == old(self)@,
    {
        self.store.set_fuel(fuel).map_err(|e| e.to_string())
    }

    /// `wasmtime::Linker::instantiate` of the compiled module with an empty
    /// linker on this sandbox's engine and store, so a module that imports
    /// anything fails. A start function runs on the fuel given, which it may
    /// use up; fuel is never added. The outcome is not stated: the imports
    /// are not visible here.
    #[verifier::external_body]
    pub(crate) fn instantiate(&mut self) -> (r: Result<(), String>)
        requires
            old(self)@.module is Some,
            old(self)@.fuel is Some,
            !old(self)@.instantiated,
        ensures
            final(self)@.fuel_left <= old(self)@.fuel_left,
            r is Ok ==> final(self)@ == (GuestView {
                instantiated: true,
                fuel_left: final(self)@.fuel_left,
                ..old(self)@
            }),
            r is Err ==> final(self)@ == (GuestView { fuel_left: final(self)@.fuel_left, ..old(self)@ }),
    {
        let linker: wasmtime::Linker<wasmtime::StoreLimits> = wasmtime::Linker::new(&self.engine);
        match linker.instantiate(&mut self.store, self.module.as_ref().unwrap()) {
            Ok(i) => {
                self.instance = Some(i);
                Ok(())
            },
            Err(e) => Err(e.to_string()),
        }
    }

    /// `wasmtime::Instance::get_memory(.., "memory")`; the memory, when
    /// there is one, is kept and its contents become the model's memory.
    /// Whether it exists, and what it holds, are not stated.
    #[verifier::external_body]
    pub(crate) fn find_memory(&mut self) -> (found: bool)
        requires
            old(self)@.instantiated,
            !old(self)@.has_memory,
        ensures
            final(self)@ == (GuestView { has_memory: found, memory: final(self)@.memory, ..old(self)@ }),
    {
        let m = self.instance.unwrap().get_memory(&mut self.store, "memory");
        self.memory = m;
        m.is_some()
    }

    /// `wasmtime::Instance::get_typed_func::<(i32, i32, i32, i32), i32>(..,
    /// "run")`; the function, when there is one of that type, is kept.
    /// Whether it exists is not stated.
    #[verifier::external_body]
    pub(crate) fn find_run(&mut self) -> (found: bool)
        requires
            old(self)@.instantiated,
            !old(self)@.has_run,
        ensures
            final(self)@ == (GuestView { has_run: found, ..old(self)@ }),
    {
        let f = self.instance.unwrap().get_typed_func::<(i32, i32, i32, i32), i32>(&mut self.store, "run").ok();
        let found = f.is_some();
        self.run = f;
        found
    }

    /// `wasmtime::Memory::data(..).len()`: the size of the guest memory.
    #[verifier::external_body]
    pub(crate) fn memory_size(&self) -> (n: usize)
        requires
            self@.has_memory,
        ensures
            n == self@.memory.len(),
    {
        self.memory.unwrap().data(&self.store).len()
    }

    /// `wasmtime::Memory::write`: writes `bytes` at `offset`, or, when they do
    /// not fit in the memory, writes nothing and fails. The error text is not
    /// stated.
    #[verifier::external_body]
    pub(crate) fn write(&mut self, offset: usize, bytes: &[u8]) -> (r: Result<(), String>)
        requires
            old(self)@.has_memory,
        ensures
            r is Ok <==> offset + bytes@.len() <= old(self)@.memory.len(),
            r is Ok ==> final(self)@ == (GuestView {
                memory: old(self)@.memory.take(offset as int) + bytes@ + old(self)@.memory.skip(offset + bytes@.len()),
                ..old(self)@
            }),
            r is Err ==> final(self)@ == old(self)@,
    {
        self.memory.unwrap().write(&mut self.store, offset, bytes).map_err(|e| e.to_string())
    }

    /// `wasmtime::TypedFunc::call`: runs the guest's `run` on the fuel given
    /// (so it stops), which may change its memory and uses fuel without ever
    /// adding any, and fails on a trap (running out of fuel among them). The
    /// call is recorded; what the guest returns, leaves in its memory and
    /// how much fuel it uses is not stated.
    #[verifier::external_body]
    pub(crate) fn call(&mut self, a: i32, b: i32, c: i32, d: i32) -> (r: Result<i32, String>)
        requires
            old(self)@.has_run,
            old(self)@.has_memory,
            old(self)@.fuel is Some,
        ensures
            final(self)@.fuel_left <= old(self)@.fuel_left,
            final(self)@ == (GuestView {
                memory: final(self)@.memory,
                fuel_left: final(self)@.fuel_left,
                calls: old(self)@.calls.push(
                    GuestCall {
                        args: (a, b, c, d),
                        before: old(self)@.memory,
                        result: call_view(r),
                        after: final(self)@.memory,
                        fuel_left: final(self)@.fuel_left,
                    },
                ),
                ..old(self)@
            }),
    {
        self.run.as_ref().unwrap().call(&mut self.store, (a, b, c, d)).map_err(|e| e.to_string())
    }

    /// `wasmtime::Memory::read` of `len` bytes at `offset`: the bytes of the
    /// memory there, or, when they are not all inside it, a failure. The
    /// error text is not stated.
    #[verifier::external_body]
    pub(crate) fn read(&self, offset: usize, len: usize) -> (r: Result<Vec<u8>, String>)
        requires
            self@.has_memory,
        ensures
            r is Ok <==> offset + len <= self@.memory.len(),
            r matches Ok(v) ==> v@ == self@.memory.subrange(offset as int, offset + len),
    {
        let mut buf = vec![0u8; len];
        match self.memory.unwrap().read(&self.store, offset, &mut buf) {
            Ok(()) => Ok(buf),
            Err(e) => Err(e.to_string()),
        }
    }

    /// `wasmtime::Store::get_fuel`: the fuel left in the store, which is
    /// there once fuel was given (the engine counts fuel then); `None` when
    /// the engine does not count fuel.
    #[verifier::external_body]
    pub(crate) fn fuel_left(&self) -> (r: Option<u64>)
        ensures
            self@.fuel is Some ==> r == Some(self@.fuel_left),
    {
        self.store.get_fuel().ok()
    }
}

} // verus!
