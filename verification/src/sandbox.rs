//! Running a guest WebAssembly module in the `wasmtime` sandbox: no
//! imports at all, fuel-limited, memory-limited, with capped input and
//! output.
//!
//! The guest exports a linear `memory` and `run(in_ptr, in_len, out_ptr,
//! out_cap) -> i32`, which returns how many output bytes it wrote or a
//! negative error code. The input is written at offset 0 and the output is
//! read right after the input area.

use vstd::prelude::*;
use crate::guest::{EngineSettings, StoreSettings, GuestView, GuestCall, Guest, fresh_guest};
use crate::text::{push_str, push_decimal, push_signed_decimal, string_from_chars, decimal, signed_decimal, starts_with};
use crate::world_lab::{ComputeLimits, check_sizes, size_check, fuel_consumed};

verus! {

/// Everything a run hands to the sandbox: the engine and store settings,
/// the fuel, where the input goes, where the output area starts, its
/// capacity, and how much guest memory the two areas need.
pub struct SandboxPlan {
    pub engine: EngineSettings,
    pub store: StoreSettings,
    pub fuel: u64,
    pub input_ptr: usize,
    pub out_ptr: usize,
    pub out_cap: usize,
    pub needed: usize,
}

/// The plan for `limits`: fuel counting on, linear memories allocated as
/// they grow (no address-space reservation ahead of time: `wasmtime`'s
/// default reserves 8 GiB of address space per memory, which fails where a
/// process's address space is limited; the store's memory limit is what
/// bounds the guest either way), a store allowing `memory_limit_bytes`
/// of memory and one instance, one memory and one table, `fuel_limit` fuel,
/// the input at offset 0 and the output area right after the input area.
pub open spec fn plan_of(limits: ComputeLimits) -> SandboxPlan {
    SandboxPlan {
        engine: EngineSettings { consume_fuel: true, static_memory_maximum_size: 0, dynamic_memory_reserved_for_growth: 0 },
        store: StoreSettings { memory_size: limits.memory_limit_bytes, instances: 1, memories: 1, tables: 1 },
        fuel: limits.fuel_limit,
        input_ptr: 0,
        out_ptr: limits.max_input_bytes,
        out_cap: limits.max_output_bytes,
        needed: (limits.max_input_bytes + limits.max_output_bytes) as usize,
    }
}

/// Builds the plan for `limits`.
pub fn sandbox_plan(limits: &ComputeLimits) -> (plan: SandboxPlan)
    requires
        limits.max_input_bytes + limits.max_output_bytes <= usize::MAX,
    ensures
        plan == plan_of(*limits),
{
    SandboxPlan {
        engine: EngineSettings { consume_fuel: true, static_memory_maximum_size: 0, dynamic_memory_reserved_for_growth: 0 },
        store: StoreSettings { memory_size: limits.memory_limit_bytes, instances: 1, memories: 1, tables: 1 },
        fuel: limits.fuel_limit,
        input_ptr: 0,
        out_ptr: limits.max_input_bytes,
        out_cap: limits.max_output_bytes,
        needed: limits.max_input_bytes + limits.max_output_bytes,
    }
}

pub open spec fn engine_error_prefix() -> Seq<char> {
    "failed to create WASM engine: "@
}

pub open spec fn compile_error_prefix() -> Seq<char> {
    "failed to compile WASM module: "@
}

pub open spec fn fuel_error_prefix() -> Seq<char> {
    "failed to set fuel limit: "@
}

pub open spec fn instantiate_error_prefix() -> Seq<char> {
    "failed to instantiate module (it must be self-contained: no imports allowed): "@
}

pub open spec fn no_memory_message() -> Seq<char> {
    "module must export a linear memory named \"memory\""@
}

pub open spec fn no_run_message() -> Seq<char> {
    "module must export a function \"run(in_ptr: i32, in_len: i32, out_ptr: i32, out_cap: i32) -> i32\""@
}

pub open spec fn write_error_prefix() -> Seq<char> {
    "failed to write input into guest memory: "@
}

pub open spec fn trap_prefix() -> Seq<char> {
    "guest module trapped or ran out of fuel: "@
}

pub open spec fn read_error_prefix() -> Seq<char> {
    "failed to read output from guest memory: "@
}

/// A `Result` carrying text, by the text's view.
pub open spec fn text_result<T>(r: Result<T, String>) -> Result<T, Seq<char>> {
    match r {
        Ok(v) => Ok(v),
        Err(e) => Err(e@),
    }
}

/// A run's result by views.
pub open spec fn run_result(r: Result<(Vec<u8>, u64), String>) -> Result<(Seq<u8>, u64), Seq<char>> {
    match r {
        Ok((out, fuel)) => Ok((out@, fuel)),
        Err(e) => Err(e@),
    }
}

/// What preparing a fresh sandbox `before` for module `wasm` with `fuel`
/// leads to, step by step: compile, set the fuel, instantiate with no
/// imports, find the `memory` export, find the `run` export. The first step
/// that fails decides the error, and the sandbox stays as that step found
/// it.
pub open spec fn prepare_outcome(
    before: GuestView,
    after: GuestView,
    wasm: Seq<u8>,
    fuel: nat,
    r: Result<(), Seq<char>>,
) -> bool {
    &&& after.store == before.store
    &&& after.calls == before.calls
    &&& if after.module is None {
        &&& after == before
        &&& r matches Err(e) && starts_with(e, compile_error_prefix())
    } else if after.fuel is None {
        &&& after == (GuestView { module: Some(wasm), ..before })
        &&& r matches Err(e) && starts_with(e, fuel_error_prefix())
    } else if !after.instantiated {
        &&& after == (GuestView { module: Some(wasm), fuel: Some(fuel), fuel_left: after.fuel_left, ..before })
        &&& after.fuel_left <= fuel
        &&& r matches Err(e) && starts_with(e, instantiate_error_prefix())
    } else {
        &&& after.module == Some(wasm)
        &&& after.fuel == Some(fuel)
        &&& after.fuel_left <= fuel
        &&& !after.has_memory ==> !after.has_run && r == Err::<(), Seq<char>>(no_memory_message())
        &&& after.has_memory && !after.has_run ==> r == Err::<(), Seq<char>>(no_run_message())
        &&& after.has_memory && after.has_run ==> r is Ok
    }
}

/// What the guest memory looks like once the input is written at `ptr`.
pub open spec fn with_input(memory: Seq<u8>, ptr: nat, input: Seq<u8>) -> Seq<u8> {
    memory.take(ptr as int) + input + memory.skip((ptr + input.len()) as int)
}

/// Writing the input into guest memory keeps its size, puts the input where
/// it was written, so the guest reads it back there, and leaves every other
/// byte as it was.
pub proof fn written_input_is_read_back(memory: Seq<u8>, ptr: nat, input: Seq<u8>)
    requires
        ptr + input.len() <= memory.len(),
    ensures
        with_input(memory, ptr, input).len() == memory.len(),
        with_input(memory, ptr, input).subrange(ptr as int, (ptr + input.len()) as int) == input,
        forall|i: int|
            0 <= i < memory.len() && !(ptr <= i < ptr + input.len()) ==> #[trigger] with_input(memory, ptr, input)[i]
                == memory[i],
{
    assert(with_input(memory, ptr, input).subrange(ptr as int, (ptr + input.len()) as int) =~= input);
}

/// What one call of the guest's `run` gives, by what it returned and what it
/// left in its memory: the trap, the guest's error code or overreach, or
/// the bytes in the output area that it says it wrote.
pub open spec fn call_outcome(c: GuestCall, plan: SandboxPlan, r: Result<(Seq<u8>, u64), Seq<char>>) -> bool {
    match c.result {
        Err(t) => r == Err::<(Seq<u8>, u64), Seq<char>>(trap_prefix() + t),
        Ok(w) => match written_check(w as int, plan.out_cap as nat) {
            Err(m) => r == Err::<(Seq<u8>, u64), Seq<char>>(m),
            Ok(n) => if plan.out_ptr + n <= c.after.len() {
                &&& r matches Ok((out, fuel))
                &&& out == c.after.subrange(plan.out_ptr as int, plan.out_ptr + n)
                &&& fuel as int == (if c.fuel_left <= plan.fuel {
                    plan.fuel - c.fuel_left
                } else {
                    0
                })
            } else {
                r matches Err(e) && starts_with(e, read_error_prefix())
            },
        },
    }
}

/// What running the prepared sandbox `before` on `input` by `plan` leads
/// to: the memory must hold both areas; the input is written at
/// `plan.input_ptr`; `run(input_ptr, input length, out_ptr, out_cap)` is
/// called once on that memory; its outcome is `call_outcome`.
pub open spec fn run_outcome(
    before: GuestView,
    after: GuestView,
    input: Seq<u8>,
    plan: SandboxPlan,
    r: Result<(Seq<u8>, u64), Seq<char>>,
) -> bool {
    if before.memory.len() < plan.needed {
        &&& after == before
        &&& r == Err::<(Seq<u8>, u64), Seq<char>>(small_memory_message(before.memory.len(), plan.needed as nat))
    } else if plan.input_ptr + input.len() > before.memory.len() {
        &&& after == before
        &&& r matches Err(e) && starts_with(e, write_error_prefix())
    } else {
        let c = after.calls.last();
        &&& after == (GuestView { memory: c.after, fuel_left: c.fuel_left, calls: before.calls.push(c), ..before })
        &&& c.fuel_left <= before.fuel_left
        &&& c.args == (plan.input_ptr as i32, input.len() as i32, plan.out_ptr as i32, plan.out_cap as i32)
        &&& c.before == with_input(before.memory, plan.input_ptr as nat, input)
        &&& call_outcome(c, plan, r)
    }
}

/// One run from a fresh sandbox, through the sandbox states `prepared` and
/// `ran`: preparation as `prepare_outcome`, whose error ends the run, and
/// then the run as `run_outcome`.
pub open spec fn sandbox_trace(
    wasm: Seq<u8>,
    input: Seq<u8>,
    plan: SandboxPlan,
    prepared: GuestView,
    prepare_result: Result<(), Seq<char>>,
    ran: GuestView,
    r: Result<(Seq<u8>, u64), Seq<char>>,
) -> bool {
    &&& prepare_outcome(fresh_guest(plan.store), prepared, wasm, plan.fuel as nat, prepare_result)
    &&& match prepare_result {
        Err(e) => r == Err::<(Seq<u8>, u64), Seq<char>>(e),
        Ok(()) => run_outcome(prepared, ran, input, plan, r),
    }
}

fn prefixed(prefix: &str, detail: &str) -> (s: String)
    ensures
        s@ == prefix@ + detail@,
        starts_with(s@, prefix@),
{
    assert((prefix@ + detail@).take(prefix@.len() as int) =~= prefix@);
    let mut out: Vec<char> = Vec::new();
    push_str(&mut out, prefix);
    push_str(&mut out, detail);
    string_from_chars(&out)
}

/// The guest reported an error code.
pub open spec fn error_code_message(code: int) -> Seq<char> {
    "guest module returned an error code ("@ + signed_decimal(code) + ")"@
}

/// The guest claimed more output than there is room for.
pub open spec fn overflow_message(written: nat, cap: nat) -> Seq<char> {
    "guest module reported writing "@ + decimal(written) + " bytes, which exceeds the output capacity "@
        + decimal(cap)
}

/// The guest's memory cannot hold the input and output areas.
pub open spec fn small_memory_message(size: nat, needed: nat) -> Seq<char> {
    "module's initial memory ("@ + decimal(size) + " bytes) is smaller than input+output area ("@ + decimal(
        needed,
    ) + " bytes) — export a larger initial memory"@
}

/// Refuses a guest memory of `size` bytes that is smaller than the `needed`
/// input and output areas.
pub fn check_memory_size(size: usize, needed: usize) -> (r: Result<(), String>)
    ensures
        size < needed ==> (r matches Err(m) && m@ == small_memory_message(size as nat, needed as nat)),
        size >= needed ==> r is Ok,
{
    if size < needed {
        let mut m: Vec<char> = Vec::new();
        push_str(&mut m, "module's initial memory (");
        push_decimal(&mut m, size as u64);
        push_str(&mut m, " bytes) is smaller than input+output area (");
        push_decimal(&mut m, needed as u64);
        push_str(&mut m, " bytes) — export a larger initial memory");
        return Err(string_from_chars(&m));
    }
    Ok(())
}

/// What the value returned by the guest's `run` means: the number of output
/// bytes when it is between zero and the output capacity `cap`, else an
/// error.
pub open spec fn written_check(written: int, cap: nat) -> Result<nat, Seq<char>> {
    if written < 0 {
        Err(error_code_message(written))
    } else if written > cap {
        Err(overflow_message(written as nat, cap))
    } else {
        Ok(written as nat)
    }
}

/// Checks the value returned by the guest's `run` against the output
/// capacity `out_cap`.
pub fn check_written(written: i32, out_cap: usize) -> (r: Result<usize, String>)
    ensures
        match (r, written_check(written as int, out_cap as nat)) {
            (Ok(n), Ok(m)) => n == m,
            (Err(e), Err(m)) => e@ == m,
            _ => false,
        },
{
    if written < 0 {
        let mut m: Vec<char> = Vec::new();
        push_str(&mut m, "guest module returned an error code (");
        push_signed_decimal(&mut m, written as i64);
        push_str(&mut m, ")");
        return Err(string_from_chars(&m));
    }
    let written = written as usize;
    if written > out_cap {
        let mut m: Vec<char> = Vec::new();
        push_str(&mut m, "guest module reported writing ");
        push_decimal(&mut m, written as u64);
        push_str(&mut m, " bytes, which exceeds the output capacity ");
        push_decimal(&mut m, out_cap as u64);
        return Err(string_from_chars(&m));
    }
    Ok(written)
}

/// Prepares a fresh sandbox: compiles `wasm`, gives it `plan.fuel` fuel,
/// instantiates it with no imports and finds its `memory` and `run`
/// exports, stopping at the first step that fails.
pub fn prepare(g: &mut Guest, wasm: &[u8], plan: &SandboxPlan) -> (r: Result<(), String>)
    requires
        old(g)@.module is None,
        old(g)@.fuel is None,
        !old(g)@.instantiated,
        !old(g)@.has_memory,
        !old(g)@.has_run,
    ensures
        prepare_outcome(old(g)@, final(g)@, wasm@, plan.fuel as nat, text_result(r)),
{
    match g.compile(wasm) {
        Ok(()) => {},
        Err(e) => return Err(prefixed("failed to compile WASM module: ", e.as_str())),
    }
    match g.set_fuel(plan.fuel) {
        Ok(()) => {},
        Err(e) => return Err(prefixed("failed to set fuel limit: ", e.as_str())),
    }
    match g.instantiate() {
        Ok(()) => {},
        Err(e) => return Err(
            prefixed("failed to instantiate module (it must be self-contained: no imports allowed): ", e.as_str()),
        ),
    }
    if !g.find_memory() {
        return Err(String::from_str("module must export a linear memory named \"memory\""));
    }
    if !g.find_run() {
        return Err(
            String::from_str(
                "module must export a function \"run(in_ptr: i32, in_len: i32, out_ptr: i32, out_cap: i32) -> i32\"",
            ),
        );
    }
    Ok(())
}

/// Runs a prepared sandbox on `input` by `plan`: checks that the guest
/// memory holds both areas, writes the input, calls `run` once, checks what
/// it returned and reads the output it wrote. Gives the output and the fuel
/// used.
pub fn run_guest(g: &mut Guest, input: &[u8], plan: &SandboxPlan) -> (r: Result<(Vec<u8>, u64), String>)
    requires
        old(g)@.has_memory,
        old(g)@.has_run,
        old(g)@.fuel is Some,
    ensures
        run_outcome(old(g)@, final(g)@, input@, *plan, run_result(r)),
{
    check_memory_size(g.memory_size(), plan.needed)?;
    match g.write(plan.input_ptr, input) {
        Ok(()) => {},
        Err(e) => return Err(prefixed("failed to write input into guest memory: ", e.as_str())),
    }
    let returned = g.call(plan.input_ptr as i32, input.len() as i32, plan.out_ptr as i32, plan.out_cap as i32);
    let returned = match returned {
        Ok(w) => w,
        Err(e) => return Err(prefixed("guest module trapped or ran out of fuel: ", e.as_str())),
    };
    let written = check_written(returned, plan.out_cap)?;
    let output = match g.read(plan.out_ptr, written) {
        Ok(o) => o,
        Err(e) => return Err(prefixed("failed to read output from guest memory: ", e.as_str())),
    };
    let fuel = fuel_consumed(plan.fuel, g.fuel_left());
    Ok((output, fuel))
}

/// Runs a guest module on `input` in a fresh sandbox set up by
/// `sandbox_plan`: no imports, the memory limit and fuel of `limits`, input
/// at offset 0, output read after the input area. Gives the output and the
/// fuel it used.
pub fn run_wasm_blocking(wasm: &[u8], input: &[u8], limits: &ComputeLimits) -> (res: Result<(Vec<u8>, u64), String>)
    requires
        limits.max_input_bytes + limits.max_output_bytes <= usize::MAX,
    ensures
        size_check(wasm@.len(), input@.len(), *limits) matches Err(m) ==> (res matches Err(e) && e@ == m),
        size_check(wasm@.len(), input@.len(), *limits) is Ok ==> {
            ||| res matches Err(e) && starts_with(e@, engine_error_prefix())
            ||| exists|prepared: GuestView, prepare_result: Result<(), Seq<char>>, ran: GuestView|
                #[trigger] sandbox_trace(wasm@, input@, plan_of(*limits), prepared, prepare_result, ran, run_result(res))
        },
        res matches Ok((out, fuel)) ==> {
            &&& size_check(wasm@.len(), input@.len(), *limits) is Ok
            &&& out@.len() <= limits.max_output_bytes
            &&& fuel <= limits.fuel_limit
        },
{
    check_sizes(wasm.len(), input.len(), limits)?;
    let plan = sandbox_plan(limits);
    let mut g = match Guest::create(&plan.engine, &plan.store) {
        Ok(g) => g,
        Err(e) => return Err(prefixed("failed to create WASM engine: ", e.as_str())),
    };
    let prepared = prepare(&mut g, wasm, &plan);
    let ghost prepared_view = g@;
    if let Err(e) = prepared {
        proof {
            assert(sandbox_trace(wasm@, input@, plan, prepared_view, text_result(prepared), prepared_view, Err(e@)));
        }
        return Err(e);
    }
    let res = run_guest(&mut g, input, &plan);
    proof {
        assert(sandbox_trace(wasm@, input@, plan, prepared_view, text_result(prepared), g@, run_result(res)));
    }
    res
}

} // verus!
