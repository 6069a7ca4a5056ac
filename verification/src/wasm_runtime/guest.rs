//! A WASM program that has been instantiated in a store of its own, and the
//! calls that the host makes into it.

use vstd::prelude::*;
use wasmtime::{Instance, Linker, Memory, Module, ResourceLimiter, Store, TypedFunc};

use super::engine::{compiled_from, error_message, message_of, program_of, Program, WasmEngine};

verus! {

/// `wasmtime::Store`, which owns everything that belongs to one program.
#[verifier::external_type_specification]
#[verifier::external_body]
#[verifier::reject_recursive_types(T)]
pub struct ExStore<T>(wasmtime::Store<T>);

/// `wasmtime::Instance`, an instantiated module.
#[verifier::external_type_specification]
#[verifier::external_body]
pub struct ExInstance(wasmtime::Instance);

/// `wasmtime::Memory`, a linear memory of an instance.
#[verifier::external_type_specification]
#[verifier::external_body]
pub struct ExMemory(wasmtime::Memory);

/// `wasmtime::TypedFunc`, an exported function whose type has been checked.
#[verifier::external_type_specification]
#[verifier::external_body]
#[verifier::reject_recursive_types(Params)]
#[verifier::reject_recursive_types(Results)]
pub struct ExTypedFunc<Params, Results>(wasmtime::TypedFunc<Params, Results>);

/// How much linear memory a program may use.
pub struct LimitState {
    max_bytes: u64,
    /// Set when a request for memory was denied.
    denied: bool,
}

impl LimitState {
    pub closed spec fn max_bytes(self) -> int {
        self.max_bytes as int
    }

    /// Whether a request for memory was denied.
    pub closed spec fn denied(self) -> bool {
        self.denied
    }

    /// A limit under which nothing has been denied yet.
    pub fn new(max_bytes: u64) -> (limits: Self)
        ensures
            limits.max_bytes() == max_bytes,
            !limits.denied(),
    {
        LimitState { max_bytes, denied: false }
    }

    /// Whether memory may grow to `desired` bytes; remembers a denial.
    pub fn grant(&mut self, desired: usize) -> (granted: bool)
        ensures
            granted == (desired <= old(self).max_bytes()),
            final(self).max_bytes() == old(self).max_bytes(),
            final(self).denied() == (old(self).denied() || !granted),
    {
        if desired as u64 > self.max_bytes {
            self.denied = true;
            false
        } else {
            true
        }
    }
}

impl ResourceLimiter for LimitState {
    fn memory_growing(&mut self, current: usize, desired: usize, maximum: Option<usize>) -> (r: Result<bool, anyhow::Error>)
        ensures
            r is Ok,
            r->Ok_0 == (desired <= old(self).max_bytes()),
            final(self).max_bytes() == old(self).max_bytes(),
            final(self).denied() == (old(self).denied() || !(r->Ok_0)),
    {
        Ok(self.grant(desired))
    }

    fn table_growing(&mut self, current: u32, desired: u32, maximum: Option<u32>) -> (r: Result<bool, anyhow::Error>)
        ensures
            r is Ok,
            r->Ok_0,
            *final(self) == *old(self),
    {
        Ok(true)
    }
}

// ── Stores and what belongs to them ────────────────────────────────────────

/// Where a part of a program comes from: the store that it belongs to, the
/// instance that exports it, the bytes of the program, and the name of the export.
pub struct Origin {
    pub store: int,
    pub instance: Instance,
    pub program: Seq<u8>,
    pub name: Seq<char>,
}

/// When a program is interrupted: the epoch of its engine at which it is, and
/// whether it then ends with a trap.
pub struct Deadline {
    pub epoch: int,
    pub traps: bool,
}

/// What bounds a program: the engine whose epochs interrupt it, the most memory
/// that it may use, and when it is interrupted.
pub struct Bounds {
    pub engine: wasmtime::Engine,
    pub max_bytes: int,
    pub deadline: Deadline,
}

/// What tells one store from another.
pub uninterp spec fn store_id(store: Store<LimitState>) -> int;

/// The engine that a store belongs to: its programs run on that engine and are
/// interrupted by that engine's epochs.
pub uninterp spec fn engine_of(store: Store<LimitState>) -> wasmtime::Engine;

/// The limits that a store holds for its program.
pub uninterp spec fn limits_of(store: Store<LimitState>) -> LimitState;

/// When the program of a store is interrupted.
pub uninterp spec fn deadline_of(store: Store<LimitState>) -> Deadline;

/// The bytes that a memory holds.
pub uninterp spec fn contents_of(store: Store<LimitState>, memory: Memory) -> Seq<u8>;

/// Whether an engine can have been in this epoch when it was looked at.
pub uninterp spec fn may_be_epoch(engine: wasmtime::Engine, epoch: int) -> bool;

/// Whether a program within these bounds can be instantiated with this outcome: a
/// failure, or none.
pub uninterp spec fn may_start(program: Program, bounds: Bounds, failure: Option<FaultView>) -> bool;

/// Whether the memory that a program within these bounds exports under a name can
/// hold these bytes once the program has been instantiated.
pub uninterp spec fn may_begin(program: Seq<u8>, bounds: Bounds, memory: Seq<char>, contents: Seq<u8>) -> bool;

/// Whether an export of a program within these bounds can give this reply to these
/// arguments, and turn what a memory of the program held into what it then holds.
pub uninterp spec fn may_reply(
    program: Seq<u8>,
    bounds: Bounds,
    name: Seq<char>,
    arguments: Seq<i32>,
    memory: Seq<char>,
    given: Seq<u8>,
    reply: ReplyView,
    left: Seq<u8>,
) -> bool;

/// Whether an instance belongs to a store and runs a program.
pub uninterp spec fn is_instance(instance: Instance, store: int, program: Seq<u8>) -> bool;

/// Whether a function `i32 -> i32` comes from there.
pub uninterp spec fn is_unary(f: TypedFunc<i32, i32>, origin: Origin) -> bool;

/// Whether a function `(i32, i32) -> i32` comes from there.
pub uninterp spec fn is_binary(f: TypedFunc<(i32, i32), i32>, origin: Origin) -> bool;

/// Whether a memory comes from there.
pub uninterp spec fn is_memory(memory: Memory, origin: Origin) -> bool;

/// What bounds the program of a store.
pub open spec fn bounds_of(store: Store<LimitState>) -> Bounds {
    Bounds { engine: engine_of(store), max_bytes: limits_of(store).max_bytes(), deadline: deadline_of(store) }
}

/// What a store keeps whatever its program does: its identity and what bounds the
/// program. A denial of memory is never taken back.
pub open spec fn keeps(before: Store<LimitState>, after: Store<LimitState>) -> bool {
    &&& store_id(after) == store_id(before)
    &&& bounds_of(after) == bounds_of(before)
    &&& limits_of(before).denied() ==> limits_of(after).denied()
}

/// Whether two parts of programs come from one instance.
pub open spec fn together(one: Origin, other: Origin) -> bool {
    one.store == other.store && one.instance == other.instance && one.program == other.program
}

/// `wasmtime::Store::new` and `wasmtime::Store::limiter` make a store of an engine
/// (`wasmtime::Store::engine`) that holds the given limits and asks them before a
/// memory or a table grows.
#[verifier::external_body]
fn limited_store(engine: &WasmEngine, limits: LimitState) -> (store: Store<LimitState>)
    ensures
        limits_of(store) == limits,
        engine_of(store) == engine.handle(),
{
    let mut store = Store::new(&engine.inner, limits);
    store.limiter(|limits| limits as &mut dyn ResourceLimiter);
    store
}

/// `wasmtime::Store::set_epoch_deadline` sets the epoch at which the program is
/// interrupted to one that is so many epochs after the engine's, and nothing else.
/// In which epoch the engine is depends on time: it is one that it can be in. The
/// bound keeps the sum with it from overflowing.
#[verifier::external_body]
fn set_deadline(store: &mut Store<LimitState>, epochs: u64)
    requires
        epochs <= 1,
    ensures
        store_id(*final(store)) == store_id(*old(store)),
        engine_of(*final(store)) == engine_of(*old(store)),
        limits_of(*final(store)) == limits_of(*old(store)),
        deadline_of(*final(store)).traps == deadline_of(*old(store)).traps,
        may_be_epoch(engine_of(*old(store)), deadline_of(*final(store)).epoch - epochs),
        forall|memory: Memory| #[trigger] contents_of(*final(store), memory) == contents_of(*old(store), memory),
{
    store.set_epoch_deadline(epochs)
}

/// `wasmtime::Store::epoch_deadline_trap` makes an interruption end the
/// program with a trap, and changes nothing else.
#[verifier::external_body]
fn trap_at_deadline(store: &mut Store<LimitState>)
    ensures
        store_id(*final(store)) == store_id(*old(store)),
        engine_of(*final(store)) == engine_of(*old(store)),
        limits_of(*final(store)) == limits_of(*old(store)),
        deadline_of(*final(store)) == (Deadline { traps: true, ..deadline_of(*old(store)) }),
        forall|memory: Memory| #[trigger] contents_of(*final(store), memory) == contents_of(*old(store), memory),
{
    store.epoch_deadline_trap()
}

/// `wasmtime::Store::data` gives the limits that a store holds; here whether a
/// request for memory was denied.
#[verifier::external_body]
fn was_denied(store: &Store<LimitState>) -> (denied: bool)
    ensures
        denied == limits_of(*store).denied(),
{
    store.data().denied
}

/// `wasmtime::Linker::instantiate`, with a linker that defines nothing and
/// belongs to the store's engine, instantiates a module in a store, to which
/// the instance then belongs. Start code of the module may run, so success is
/// not claimed; the outcome is one that the program can have within the store's
/// bounds, and each memory that the new instance exports holds what it can then
/// hold. [`keeps`] says what the store keeps.
#[verifier::external_body]
fn instantiate(store: &mut Store<LimitState>, module: &Module) -> (r: Result<Instance, anyhow::Error>)
    ensures
        keeps(*old(store), *final(store)),
        r is Ok ==> is_instance(r->Ok_0, store_id(*old(store)), compiled_from(*module)),
        may_start(
            program_of(*module),
            bounds_of(*old(store)),
            match r {
                Ok(_) => None,
                Err(e) => Some(FaultView { denied: limits_of(*final(store)).denied(), kind: fault_of(e) }),
            },
        ),
        r is Ok ==> forall|memory: Memory, home: Origin| #[trigger]
            is_memory(memory, home) && home.store == store_id(*old(store)) && home.instance == r->Ok_0 ==> may_begin(
                compiled_from(*module),
                bounds_of(*old(store)),
                home.name,
                contents_of(*final(store), memory),
            ),
{
    Linker::new(store.engine()).instantiate(store, module)
}

/// Whether a program exports a function `i32 -> i32` under a name.
pub uninterp spec fn exports_unary(program: Seq<u8>, name: Seq<char>) -> bool;

/// Whether a program exports a function `(i32, i32) -> i32` under a name.
pub uninterp spec fn exports_binary(program: Seq<u8>, name: Seq<char>) -> bool;

/// Whether a program exports a memory of its own under a name.
pub uninterp spec fn exports_memory(program: Seq<u8>, name: Seq<char>) -> bool;

/// Whether something comes from an instance, which exports it under `name`.
pub open spec fn exported(instance: Instance, name: Seq<char>, origin: Origin) -> bool {
    &&& origin.instance == instance
    &&& is_instance(instance, origin.store, origin.program)
    &&& origin.name == name
}

/// `wasmtime::Instance::get_typed_func` finds an exported function of type
/// `i32 -> i32`, exactly if the instance's program exports one of that name. It
/// comes from the instance; the store keeps its limits, what its memories hold and
/// what [`keeps`] says. The error is left open.
#[verifier::external_body]
fn unary_export(instance: &Instance, store: &mut Store<LimitState>, name: &str) -> (r: Result<
    TypedFunc<i32, i32>,
    anyhow::Error,
>)
    requires
        exists|program: Seq<u8>| is_instance(*instance, store_id(*old(store)), program),
    ensures
        keeps(*old(store), *final(store)),
        limits_of(*final(store)) == limits_of(*old(store)),
        forall|memory: Memory| #[trigger] contents_of(*final(store), memory) == contents_of(*old(store), memory),
        forall|program: Seq<u8>| #[trigger]
            is_instance(*instance, store_id(*old(store)), program) ==> (r is Ok <==> exports_unary(program, name@)),
        r is Ok ==> forall|origin: Origin| exported(*instance, name@, origin) ==> #[trigger] is_unary(r->Ok_0, origin),
{
    instance.get_typed_func::<i32, i32>(store, name)
}

/// `wasmtime::Instance::get_typed_func` finds an exported function of type
/// `(i32, i32) -> i32`, exactly if the instance's program exports one of that
/// name. It comes from the instance; the store keeps its limits, what its memories
/// hold and what [`keeps`] says. The error is left open.
#[verifier::external_body]
fn binary_export(instance: &Instance, store: &mut Store<LimitState>, name: &str) -> (r: Result<
    TypedFunc<(i32, i32), i32>,
    anyhow::Error,
>)
    requires
        exists|program: Seq<u8>| is_instance(*instance, store_id(*old(store)), program),
    ensures
        keeps(*old(store), *final(store)),
        limits_of(*final(store)) == limits_of(*old(store)),
        forall|memory: Memory| #[trigger] contents_of(*final(store), memory) == contents_of(*old(store), memory),
        forall|program: Seq<u8>| #[trigger]
            is_instance(*instance, store_id(*old(store)), program) ==> (r is Ok <==> exports_binary(program, name@)),
        r is Ok ==> forall|origin: Origin| exported(*instance, name@, origin) ==> #[trigger] is_binary(r->Ok_0, origin),
{
    instance.get_typed_func::<(i32, i32), i32>(store, name)
}

/// `wasmtime::Instance::get_memory` finds an exported memory, exactly if the
/// instance's program exports one of that name that it does not share. It comes
/// from the instance; the store keeps its limits, what its memories hold and what
/// [`keeps`] says.
#[verifier::external_body]
fn memory_export(instance: &Instance, store: &mut Store<LimitState>, name: &str) -> (r: Option<Memory>)
    requires
        exists|program: Seq<u8>| is_instance(*instance, store_id(*old(store)), program),
    ensures
        keeps(*old(store), *final(store)),
        limits_of(*final(store)) == limits_of(*old(store)),
        forall|memory: Memory| #[trigger] contents_of(*final(store), memory) == contents_of(*old(store), memory),
        forall|program: Seq<u8>| #[trigger]
            is_instance(*instance, store_id(*old(store)), program) ==> (r is Some <==> exports_memory(program, name@)),
        r is Some ==> forall|origin: Origin| exported(*instance, name@, origin) ==> #[trigger] is_memory(r->0, origin),
{
    instance.get_memory(store, name)
}

/// The reply that a call gave, with what the limits say afterwards.
pub open spec fn reply_of(r: Result<i32, anyhow::Error>, after: Store<LimitState>) -> ReplyView {
    match r {
        Ok(value) => Ok(value),
        Err(e) => Err(FaultView { denied: limits_of(after).denied(), kind: fault_of(e) }),
    }
}

/// `wasmtime::TypedFunc::call` runs a function `i32 -> i32` of the program. What
/// it replies and does to its memory is the program's affair: the reply and what a
/// memory of the instance then holds are ones that the program can give, within the
/// store's bounds, from what the memory held. [`keeps`] says what the store keeps.
#[verifier::external_body]
fn call_unary(f: &TypedFunc<i32, i32>, store: &mut Store<LimitState>, argument: i32) -> (r: Result<i32, anyhow::Error>)
    requires
        exists|origin: Origin| is_unary(*f, origin) && origin.store == store_id(*old(store)),
    ensures
        keeps(*old(store), *final(store)),
        forall|origin: Origin, memory: Memory, home: Origin| #[trigger]
            is_unary(*f, origin) && #[trigger] is_memory(memory, home) && together(origin, home) ==> may_reply(
                origin.program,
                bounds_of(*old(store)),
                origin.name,
                seq![argument],
                home.name,
                contents_of(*old(store), memory),
                reply_of(r, *final(store)),
                contents_of(*final(store), memory),
            ),
{
    f.call(store, argument)
}

/// `wasmtime::TypedFunc::call` runs a function `(i32, i32) -> i32` of the
/// program. What it replies and does to its memory is the program's affair: the
/// reply and what a memory of the instance then holds are ones that the program can
/// give, within the store's bounds, from what the memory held. [`keeps`] says what
/// the store keeps.
#[verifier::external_body]
fn call_binary(f: &TypedFunc<(i32, i32), i32>, store: &mut Store<LimitState>, first: i32, second: i32) -> (r: Result<
    i32,
    anyhow::Error,
>)
    requires
        exists|origin: Origin| is_binary(*f, origin) && origin.store == store_id(*old(store)),
    ensures
        keeps(*old(store), *final(store)),
        forall|origin: Origin, memory: Memory, home: Origin| #[trigger]
            is_binary(*f, origin) && #[trigger] is_memory(memory, home) && together(origin, home) ==> may_reply(
                origin.program,
                bounds_of(*old(store)),
                origin.name,
                seq![first, second],
                home.name,
                contents_of(*old(store), memory),
                reply_of(r, *final(store)),
                contents_of(*final(store), memory),
            ),
{
    f.call(store, (first, second))
}

/// The message for an access beyond the end of memory.
pub open spec fn out_of_bounds() -> Seq<char> {
    "out of bounds memory access"@
}

/// `wasmtime::Memory::write` copies bytes into a memory from an offset on. It
/// fails, and writes nothing, exactly when they do not fit; its error is given
/// by its message, which is always the same. The store keeps its limits and what
/// [`keeps`] says.
#[verifier::external_body]
fn write_memory(memory: &Memory, store: &mut Store<LimitState>, offset: usize, bytes: &[u8]) -> (r: Result<(), String>)
    requires
        exists|origin: Origin| is_memory(*memory, origin) && origin.store == store_id(*old(store)),
    ensures
        keeps(*old(store), *final(store)),
        limits_of(*final(store)) == limits_of(*old(store)),
        r is Ok <==> offset + bytes@.len() <= contents_of(*old(store), *memory).len(),
        r is Ok ==> contents_of(*final(store), *memory) == overwritten(contents_of(*old(store), *memory), offset as int, bytes@),
        r is Err ==> contents_of(*final(store), *memory) == contents_of(*old(store), *memory),
        r is Err ==> r->Err_0@ == out_of_bounds(),
{
    memory.write(store, offset, bytes).map_err(|e| e.to_string())
}

/// `wasmtime::Memory::read` fills a buffer from a memory at an offset. It fails,
/// and leaves the buffer alone, exactly when the memory does not reach that
/// far; its error is given by its message, which is always the same.
#[verifier::external_body]
fn read_memory(memory: &Memory, store: &Store<LimitState>, offset: usize, buffer: &mut Vec<u8>) -> (r: Result<(), String>)
    requires
        exists|origin: Origin| is_memory(*memory, origin) && origin.store == store_id(*store),
    ensures
        r is Ok <==> offset + old(buffer)@.len() <= contents_of(*store, *memory).len(),
        r is Ok ==> final(buffer)@ == contents_of(*store, *memory).subrange(offset as int, offset + old(buffer)@.len()),
        r is Err ==> final(buffer)@ == old(buffer)@,
        r is Err ==> r->Err_0@ == out_of_bounds(),
{
    memory.read(store, offset, buffer).map_err(|e| e.to_string())
}

/// `wasmtime::Memory::data_size` gives the number of bytes that a memory holds.
/// Memory starts at a size and grows to a size that the store's limits granted.
#[verifier::external_body]
fn memory_size(memory: &Memory, store: &Store<LimitState>) -> (size: usize)
    requires
        exists|origin: Origin| is_memory(*memory, origin) && origin.store == store_id(*store),
    ensures
        size == contents_of(*store, *memory).len(),
        size <= limits_of(*store).max_bytes(),
{
    memory.data_size(store)
}

/// `all` with `part` in place of the bytes from `offset` on.
pub open spec fn overwritten(all: Seq<u8>, offset: int, part: Seq<u8>) -> Seq<u8> {
    all.take(offset) + part + all.skip(offset + part.len())
}

// ── Failures of a program ──────────────────────────────────────────────────

/// How a call into a program failed.
#[derive(Debug)]
pub enum FaultKind {
    /// It was interrupted at its deadline.
    Interrupted,
    /// It trapped; the trap's name.
    Trap(String),
    /// Anything else; the message.
    Other(String),
}

/// What a [`FaultKind`] says.
pub enum KindView {
    Interrupted,
    Trap(Seq<char>),
    Other(Seq<char>),
}

impl View for FaultKind {
    type V = KindView;

    open spec fn view(&self) -> KindView {
        match self {
            FaultKind::Interrupted => KindView::Interrupted,
            FaultKind::Trap(name) => KindView::Trap(name@),
            FaultKind::Other(message) => KindView::Other(message@),
        }
    }
}

/// How the call failed that an error reports.
pub uninterp spec fn fault_of(e: anyhow::Error) -> KindView;

/// `anyhow::Error::downcast_ref` tells whether an error is a `wasmtime::Trap`,
/// and which; any other error is given by its message.
#[verifier::external_body]
fn fault_kind(e: &anyhow::Error) -> (kind: Option<FaultKind>)
    ensures
        match kind {
            Some(kind) => kind@ == fault_of(*e) && !(kind is Other),
            None => fault_of(*e) == KindView::Other(message_of(*e)),
        },
{
    match e.downcast_ref::<wasmtime::Trap>() {
        Some(wasmtime::Trap::Interrupt) => Some(FaultKind::Interrupted),
        Some(other) => Some(FaultKind::Trap(format!("{other:?}"))),
        None => None,
    }
}

/// A failed call: whether memory was denied to the program up to then, and how
/// the call failed.
#[derive(Debug)]
pub struct Fault {
    pub denied: bool,
    pub kind: FaultKind,
}

/// What a [`Fault`] says.
pub struct FaultView {
    pub denied: bool,
    pub kind: KindView,
}

impl View for Fault {
    type V = FaultView;

    open spec fn view(&self) -> FaultView {
        FaultView { denied: self.denied, kind: self.kind@ }
    }
}

/// The fault that an error reports, given whether memory was denied.
pub fn fault_from(denied: bool, e: anyhow::Error) -> (fault: Fault)
    ensures
        fault@ == (FaultView { denied, kind: fault_of(e) }),
{
    let kind = match fault_kind(&e) {
        Some(kind) => kind,
        None => FaultKind::Other(error_message(&e)),
    };
    Fault { denied, kind }
}

/// The reply of a program to a call: a number, or how the call failed.
pub type ReplyView = Result<i32, FaultView>;

/// What a reply says.
pub open spec fn reply_view(reply: Result<i32, Fault>) -> ReplyView {
    match reply {
        Ok(value) => Ok(value),
        Err(fault) => Err(fault@),
    }
}

// ── The program as its host sees it ────────────────────────────────────────

/// A call that the host made into the program, with the memory that the call was
/// given, the reply and the memory that it left.
pub enum GuestCall {
    /// `alloc(size)`.
    Alloc { size: i32, given: Seq<u8>, reply: ReplyView, left: Seq<u8> },
    /// The function that the host wants, with a pointer and a length.
    Process { pointer: i32, length: i32, given: Seq<u8>, reply: ReplyView, left: Seq<u8> },
}

/// What the host has done with a program so far.
pub struct GuestRun {
    /// The bytes of the program.
    pub program: Seq<u8>,
    /// What bounds the program.
    pub bounds: Bounds,
    /// The name of the function that the host wants.
    pub function: Seq<char>,
    /// The calls made into the program.
    pub calls: Seq<GuestCall>,
}

impl GuestRun {
    /// The run with one more call.
    pub open spec fn then_call(self, call: GuestCall) -> Self {
        GuestRun { calls: self.calls.push(call), ..self }
    }

    /// Whether the program can give this reply to a call of an export, and turn its
    /// memory from what it was given into what it left.
    pub open spec fn may_give(
        self,
        name: Seq<char>,
        arguments: Seq<i32>,
        given: Seq<u8>,
        reply: ReplyView,
        left: Seq<u8>,
    ) -> bool {
        may_reply(self.program, self.bounds, name, arguments, "memory"@, given, reply, left)
    }

    /// Whether these can be the contents of the program's memory before it is called.
    pub open spec fn may_begin_with(self, contents: Seq<u8>) -> bool {
        may_begin(self.program, self.bounds, "memory"@, contents)
    }
}

/// An instantiated program with the exports that the host uses.
pub struct Guest {
    store: Store<LimitState>,
    alloc: TypedFunc<i32, i32>,
    process: TypedFunc<(i32, i32), i32>,
    memory: Memory,
    run: Ghost<GuestRun>,
}

/// Why a program cannot be used.
#[derive(Debug)]
pub enum OpenError {
    /// Instantiation failed.
    Failed(Fault),
    /// It lacks `alloc`.
    NoAlloc,
    /// It lacks the function that the host wants.
    NoFunction,
    /// It lacks `memory`.
    NoMemory,
}

/// The first of the exports that the host uses that a program lacks.
pub open spec fn first_missing(program: Seq<u8>, function: Seq<char>) -> Option<Seq<char>> {
    if !exports_unary(program, "alloc"@) {
        Some("alloc"@)
    } else if !exports_binary(program, function) {
        Some(function)
    } else if !exports_memory(program, "memory"@) {
        Some("memory"@)
    } else {
        None
    }
}

/// Whether a program has all exports that the host uses, or this error is for the
/// first that it lacks.
pub open spec fn looked_up(program: Seq<u8>, function: Seq<char>, failure: Option<OpenError>) -> bool {
    match failure {
        None => first_missing(program, function) is None,
        Some(OpenError::NoAlloc) => !exports_unary(program, "alloc"@),
        Some(OpenError::NoFunction) => exports_unary(program, "alloc"@) && !exports_binary(program, function),
        Some(OpenError::NoMemory) => {
            &&& exports_unary(program, "alloc"@)
            &&& exports_binary(program, function)
            &&& !exports_memory(program, "memory"@)
        },
        Some(OpenError::Failed(_)) => false,
    }
}

/// Whether bounds are those of a program that was opened on an engine with so much
/// memory: it ends with a trap at the epoch after the one that the engine was in.
pub open spec fn bounded(bounds: Bounds, engine: wasmtime::Engine, max_bytes: int) -> bool {
    &&& bounds.engine == engine
    &&& bounds.max_bytes == max_bytes
    &&& bounds.deadline.traps
    &&& may_be_epoch(engine, bounds.deadline.epoch - 1)
}

/// Whether a program within these bounds can be opened with this outcome: its
/// instantiation can fail so, or can succeed, and then its exports decide.
pub open spec fn may_open(program: Program, bounds: Bounds, function: Seq<char>, failure: Option<OpenError>) -> bool {
    match failure {
        Some(OpenError::Failed(fault)) => may_start(program, bounds, Some(fault@)),
        _ => may_start(program, bounds, None) && looked_up(program.bytes, function, failure),
    }
}

/// The error of a result, if it is one.
pub open spec fn failure_of(r: Result<Guest, OpenError>) -> Option<OpenError> {
    match r {
        Ok(_) => None,
        Err(e) => Some(e),
    }
}

impl Guest {
    /// The exports are those of one instance of the program, and belong to its
    /// store, which bounds the program as the run says.
    pub closed spec fn wf(&self) -> bool {
        exists|instance: Instance| #[trigger] self.exports_of(instance)
    }

    /// Whether the exports are those of an instance of the program, in a store with
    /// the bounds of the run.
    closed spec fn exports_of(&self, instance: Instance) -> bool {
        let store = store_id(self.store);
        let program = self.run@.program;
        &&& is_unary(self.alloc, Origin { store, instance, program, name: "alloc"@ })
        &&& is_binary(self.process, Origin { store, instance, program, name: self.run@.function })
        &&& is_memory(self.memory, Origin { store, instance, program, name: "memory"@ })
        &&& bounds_of(self.store) == self.run@.bounds
    }

    /// What the host has done with the program so far.
    pub closed spec fn run(&self) -> GuestRun {
        self.run@
    }

    /// The bytes in memory.
    pub closed spec fn memory(&self) -> Seq<u8> {
        contents_of(self.store, self.memory)
    }

    /// Instantiates `module` in a store of its own, with no imports, at most
    /// `max_bytes` bytes of memory, and a trap at the engine's next epoch. Then
    /// looks up its exports: `alloc`, `function_name` and `memory`, in this
    /// order. Instantiation runs start code of the module and takes memory from
    /// the machine, so when it fails is left open.
    pub fn open(engine: &WasmEngine, module: &Module, max_bytes: u64, function_name: &str) -> (r: Result<Guest, OpenError>)
        ensures
            r is Ok ==> {
                &&& r->Ok_0.wf()
                &&& r->Ok_0.run() == (GuestRun {
                    program: compiled_from(*module),
                    bounds: r->Ok_0.run().bounds,
                    function: function_name@,
                    calls: Seq::empty(),
                })
                &&& r->Ok_0.run().may_begin_with(r->Ok_0.memory())
                &&& bounded(r->Ok_0.run().bounds, engine.handle(), max_bytes as int)
                &&& may_open(program_of(*module), r->Ok_0.run().bounds, function_name@, None)
            },
            r is Err ==> exists|bounds: Bounds|
                bounded(bounds, engine.handle(), max_bytes as int) && #[trigger] may_open(
                    program_of(*module),
                    bounds,
                    function_name@,
                    Some(r->Err_0),
                ),
    {
        let mut store = limited_store(engine, LimitState::new(max_bytes));
        set_deadline(&mut store, 1);
        trap_at_deadline(&mut store);
        let started = instantiate(&mut store, module);
        let ghost bounds = bounds_of(store);
        let r = Self::from_started(store, started, module, function_name);
        assert(may_open(program_of(*module), bounds, function_name@, failure_of(r)));
        r
    }

    /// The program in `store`, given whether `module` could be instantiated
    /// there.
    fn from_started(
        store: Store<LimitState>,
        started: Result<Instance, anyhow::Error>,
        module: &Module,
        function_name: &str,
    ) -> (r: Result<Guest, OpenError>)
        requires
            started is Ok ==> is_instance(started->Ok_0, store_id(store), compiled_from(*module)),
            started is Ok ==> forall|memory: Memory, home: Origin| #[trigger]
                is_memory(memory, home) && home.store == store_id(store) && home.instance == started->Ok_0 ==> may_begin(
                    compiled_from(*module),
                    bounds_of(store),
                    home.name,
                    contents_of(store, memory),
                ),
        ensures
            match started {
                Err(e) => {
                    &&& r is Err
                    &&& r->Err_0 is Failed
                    &&& r->Err_0->Failed_0@ == (FaultView { denied: limits_of(store).denied(), kind: fault_of(e) })
                },
                Ok(_) => looked_up(compiled_from(*module), function_name@, failure_of(r)),
            },
            r is Ok ==> {
                &&& r->Ok_0.wf()
                &&& r->Ok_0.run() == (GuestRun {
                    program: compiled_from(*module),
                    bounds: bounds_of(store),
                    function: function_name@,
                    calls: Seq::empty(),
                })
                &&& r->Ok_0.run().may_begin_with(r->Ok_0.memory())
            },
    {
        let mut store = store;
        let ghost bounds = bounds_of(store);
        let instance = match started {
            Ok(instance) => instance,
            Err(e) => {
                let denied = was_denied(&store);
                return Err(OpenError::Failed(fault_from(denied, e)));
            },
        };
        let alloc = match unary_export(&instance, &mut store, "alloc") {
            Ok(f) => f,
            Err(_) => {
                return Err(OpenError::NoAlloc);
            },
        };
        let process = match binary_export(&instance, &mut store, function_name) {
            Ok(f) => f,
            Err(_) => {
                return Err(OpenError::NoFunction);
            },
        };
        match memory_export(&instance, &mut store, "memory") {
            Some(memory) => {
                let ghost run = GuestRun {
                    program: compiled_from(*module),
                    bounds,
                    function: function_name@,
                    calls: Seq::empty(),
                };
                proof {
                    let store = store_id(store);
                    let program = compiled_from(*module);
                    assert(exported(instance, "alloc"@, Origin { store, instance, program, name: "alloc"@ }));
                    assert(exported(instance, function_name@, Origin { store, instance, program, name: function_name@ }));
                    assert(exported(instance, "memory"@, Origin { store, instance, program, name: "memory"@ }));
                    assert(is_memory(memory, Origin { store, instance, program, name: "memory"@ }));
                }
                let guest = Guest { store, alloc, process, memory, run: Ghost(run) };
                assert(guest.exports_of(instance));
                Ok(guest)
            },
            None => Err(OpenError::NoMemory),
        }
    }

    /// Calls `alloc(size)`.
    pub fn call_alloc(&mut self, size: i32) -> (reply: Result<i32, Fault>)
        requires
            old(self).wf(),
        ensures
            final(self).wf(),
            final(self).run() == old(self).run().then_call(
                GuestCall::Alloc {
                    size,
                    given: old(self).memory(),
                    reply: reply_view(reply),
                    left: final(self).memory(),
                },
            ),
            old(self).run().may_give("alloc"@, seq![size], old(self).memory(), reply_view(reply), final(self).memory()),
    {
        let ghost instance = choose|instance: Instance| #[trigger] self.exports_of(instance);
        let ghost given = contents_of(self.store, self.memory);
        let reply = match call_unary(&self.alloc, &mut self.store, size) {
            Ok(value) => Ok(value),
            Err(e) => Err(fault_from(was_denied(&self.store), e)),
        };
        self.run = Ghost(
            self.run@.then_call(
                GuestCall::Alloc {
                    size,
                    given,
                    reply: reply_view(reply),
                    left: contents_of(self.store, self.memory),
                },
            ),
        );
        assert(self.exports_of(instance));
        reply
    }

    /// Calls the function that the host wants.
    pub fn call_process(&mut self, pointer: i32, length: i32) -> (reply: Result<i32, Fault>)
        requires
            old(self).wf(),
        ensures
            final(self).wf(),
            final(self).run() == old(self).run().then_call(
                GuestCall::Process {
                    pointer,
                    length,
                    given: old(self).memory(),
                    reply: reply_view(reply),
                    left: final(self).memory(),
                },
            ),
            old(self).run().may_give(
                old(self).run().function,
                seq![pointer, length],
                old(self).memory(),
                reply_view(reply),
                final(self).memory(),
            ),
    {
        let ghost instance = choose|instance: Instance| #[trigger] self.exports_of(instance);
        let ghost given = contents_of(self.store, self.memory);
        let reply = match call_binary(&self.process, &mut self.store, pointer, length) {
            Ok(value) => Ok(value),
            Err(e) => Err(fault_from(was_denied(&self.store), e)),
        };
        self.run = Ghost(
            self.run@.then_call(
                GuestCall::Process {
                    pointer,
                    length,
                    given,
                    reply: reply_view(reply),
                    left: contents_of(self.store, self.memory),
                },
            ),
        );
        assert(self.exports_of(instance));
        reply
    }

    /// Copies `bytes` into memory from `offset` on.
    pub fn write(&mut self, offset: usize, bytes: &[u8]) -> (r: Result<(), String>)
        requires
            old(self).wf(),
        ensures
            final(self).wf(),
            final(self).run() == old(self).run(),
            r is Ok <==> offset + bytes@.len() <= old(self).memory().len(),
            final(self).memory() == (if r is Ok {
                overwritten(old(self).memory(), offset as int, bytes@)
            } else {
                old(self).memory()
            }),
            r is Err ==> r->Err_0@ == out_of_bounds(),
    {
        let ghost instance = choose|instance: Instance| #[trigger] self.exports_of(instance);
        let r = write_memory(&self.memory, &mut self.store, offset, bytes);
        assert(self.exports_of(instance));
        r
    }

    /// Copies `length` bytes out of memory from `offset` on.
    pub fn read(&self, offset: usize, length: usize) -> (r: Result<Vec<u8>, String>)
        requires
            self.wf(),
        ensures
            r is Ok <==> offset + length <= self.memory().len(),
            r is Ok ==> r->Ok_0@ == self.memory().subrange(offset as int, offset + length),
            r is Err ==> r->Err_0@ == out_of_bounds(),
    {
        let mut buffer: Vec<u8> = vec![0u8; length];
        match read_memory(&self.memory, &self.store, offset, &mut buffer) {
            Ok(()) => Ok(buffer),
            Err(message) => Err(message),
        }
    }

    /// The number of bytes in memory.
    pub fn size(&self) -> (bytes: usize)
        requires
            self.wf(),
        ensures
            bytes == self.memory().len(),
            bytes <= self.run().bounds.max_bytes,
    {
        memory_size(&self.memory, &self.store)
    }
}

/// Writing a part into a memory puts it there byte for byte, keeps the rest, and keeps the
/// size.
pub proof fn law_write_changes_one_part(all: Seq<u8>, offset: int, part: Seq<u8>, i: int)
    requires
        0 <= offset,
        offset + part.len() <= all.len(),
        0 <= i < all.len(),
    ensures
        overwritten(all, offset, part).len() == all.len(),
        overwritten(all, offset, part)[i] == (if offset <= i < offset + part.len() {
            part[i - offset]
        } else {
            all[i]
        }),
{
}

/// The exports are looked for in the order `alloc`, the function, `memory`, and the first
/// that the program lacks is the one that is missed.
pub proof fn law_first_missing_export_is_told(program: Seq<u8>, function: Seq<char>, failure: Option<OpenError>)
    requires
        looked_up(program, function, failure),
    ensures
        failure is None <==> exports_unary(program, "alloc"@) && exports_binary(program, function) && exports_memory(
            program,
            "memory"@,
        ),
        failure == Some(OpenError::NoAlloc) <==> !exports_unary(program, "alloc"@),
        failure == Some(OpenError::NoFunction) <==> exports_unary(program, "alloc"@) && !exports_binary(program, function),
        failure == Some(OpenError::NoMemory) <==> exports_unary(program, "alloc"@) && exports_binary(program, function)
            && !exports_memory(program, "memory"@),
{
}

/// A program that was opened, or could not be, was instantiated within its bounds with that
/// outcome: it failed so, or it was there and its exports decided.
pub proof fn law_opening_instantiates(
    program: Program,
    bounds: Bounds,
    function: Seq<char>,
    failure: Option<OpenError>,
)
    requires
        may_open(program, bounds, function, failure),
    ensures
        failure is Some && failure->0 is Failed ==> may_start(program, bounds, Some(failure->0->Failed_0@)),
        failure is None || !(failure->0 is Failed) ==> may_start(program, bounds, None),
        failure is None ==> exports_unary(program.bytes, "alloc"@) && exports_binary(program.bytes, function)
            && exports_memory(program.bytes, "memory"@),
{
}

/// The bounds of a program are those with which it is opened: its engine, its memory limit,
/// and a trap at the epoch after one in which the engine was.
pub proof fn law_bounds_are_those_asked_for(bounds: Bounds, engine: wasmtime::Engine, max_bytes: int)
    requires
        bounded(bounds, engine, max_bytes),
    ensures
        bounds.engine == engine,
        bounds.max_bytes == max_bytes,
        bounds.deadline.traps,
        may_be_epoch(engine, bounds.deadline.epoch - 1),
{
}

} // verus!
