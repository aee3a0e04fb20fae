//! Weak proxies: objects that pass every operation on to another one, as long as it lives.
//!
//! A proxy decides what is asked of its referent, and that nothing is once the referent is gone.
//! What it asks is a [`Request`], which the interpreter carries out.
use vstd::prelude::*;

verus! {

/// An object, by its identity.
#[derive(Debug, Clone, Copy, PartialEq, Eq, Structural)]
pub struct PyObjectRef(pub u64);

/// A class, by its place among the classes of a context.
#[derive(Debug, Clone, Copy, PartialEq, Eq, Structural)]
pub struct PyTypeRef(pub usize);

/// Which slots of a class are filled, among those that a proxy fills.
#[derive(Debug, Clone, Copy, PartialEq, Eq, Structural)]
pub struct Slots {
    pub new: bool,
    pub getattro: bool,
    pub setattro: bool,
    pub richcompare: bool,
    pub as_sequence: bool,
    pub as_mapping: bool,
    pub repr: bool,
    pub iter: bool,
    pub iternext: bool,
    pub hash: bool,
}

/// Which methods a class has of its own, among those that a proxy has.
#[derive(Debug, Clone, Copy, PartialEq, Eq, Structural)]
pub struct Methods {
    pub dunder_str: bool,
    pub dunder_bool: bool,
    pub dunder_bytes: bool,
    pub dunder_reversed: bool,
    pub dunder_contains: bool,
}

pub struct PyType {
    pub name: String,
    pub base: Option<PyTypeRef>,
    pub slots: Slots,
    pub methods: Methods,
}

/// The classes that the interpreter itself uses.
#[derive(Debug, Clone, Copy, PartialEq, Eq, Structural)]
pub struct TypeZoo {
    pub weakproxy_type: PyTypeRef,
    pub weakref_type: PyTypeRef,
    pub reference_error: PyTypeRef,
}

pub struct Context {
    pub types: TypeZoo,
    pub classes: Vec<PyType>,
}

impl Context {
    /// The classes that the interpreter uses exist.
    pub open spec fn wf(self) -> bool {
        &&& self.types.weakproxy_type.0 < self.classes@.len()
        &&& self.types.weakref_type.0 < self.classes@.len()
        &&& self.types.reference_error.0 < self.classes@.len()
    }

    /// Makes a class with these slots and no methods of its own.
    pub fn new_class(&mut self, name: &str, base: PyTypeRef, slots: Slots) -> (r: PyTypeRef)
        requires
            old(self).wf(),
        ensures
            final(self).wf(),
            r.0 == old(self).classes@.len(),
            final(self).types == old(self).types,
            final(self).classes@.len() == old(self).classes@.len() + 1,
            final(self).classes@.drop_last() == old(self).classes@,
            final(self).classes@.last().name@ == name@,
            final(self).classes@.last().base == Some(base),
            final(self).classes@.last().slots == slots,
            final(self).classes@.last().methods == no_methods(),
    {
        let r = PyTypeRef(self.classes.len());
        self.classes.push(
            PyType {
                name: name.to_owned(),
                base: Some(base),
                slots,
                methods: Methods {
                    dunder_str: false,
                    dunder_bool: false,
                    dunder_bytes: false,
                    dunder_reversed: false,
                    dunder_contains: false,
                },
            },
        );
        assert(self.classes@.drop_last() =~= old(self).classes@);
        r
    }
}

pub open spec fn no_methods() -> Methods {
    Methods {
        dunder_str: false,
        dunder_bool: false,
        dunder_bytes: false,
        dunder_reversed: false,
        dunder_contains: false,
    }
}

/// An exception: its class and its message.
pub struct PyBaseException {
    pub class: PyTypeRef,
    pub message: String,
}

/// The interpreter, as far as a proxy sees it.
pub struct VirtualMachine {
    pub ctx: Context,
    /// The objects that are alive.
    pub live: Vec<PyObjectRef>,
    /// The class of the weak references that proxies hold, once there is one.
    pub weak_subclass: Option<PyTypeRef>,
}

impl VirtualMachine {
    pub open spec fn wf(self) -> bool {
        self.ctx.wf()
    }
}

/// A weak reference.
#[derive(Debug, Clone, Copy, PartialEq, Eq, Structural)]
pub struct PyWeak {
    pub referent: PyObjectRef,
}

impl PyWeak {
    /// The referent, while it is alive.
    pub fn upgrade(&self, vm: &VirtualMachine) -> (r: Option<PyObjectRef>)
        ensures
            r == (if vm.live@.contains(self.referent) {
                Some(self.referent)
            } else {
                None
            }),
    {
        let n: usize = vm.live.len();
        let mut i: usize = 0;
        while i < n
            invariant
                i <= n,
                n == vm.live@.len(),
                forall|j: int| 0 <= j < i ==> vm.live@[j] != self.referent,
            decreases n - i,
        {
            if vm.live[i] == self.referent {
                assert(vm.live@.contains(vm.live@[i as int]));
                return Some(self.referent);
            }
            i += 1;
        }
        None
    }
}

pub struct PyWeakProxy {
    pub weak: PyWeak,
}

/// An argument that may be left out.
#[derive(Debug, Clone, Copy, PartialEq, Eq, Structural)]
pub enum OptionalArg {
    Present(PyObjectRef),
    Missing,
}

pub struct WeakProxyNewArgs {
    pub referent: PyObjectRef,
    pub callback: OptionalArg,
}

/// A value that an attribute is set to, or the wish to delete it.
#[derive(Debug, Clone, Copy, PartialEq, Eq, Structural)]
pub enum PySetterValue {
    Assign(PyObjectRef),
    Delete,
}

#[derive(Debug, Clone, Copy, PartialEq, Eq, Structural)]
pub enum PyComparisonOp {
    Lt,
    Gt,
    Ne,
    Eq,
    Le,
    Ge,
}

#[derive(Debug, Clone, Copy, PartialEq, Eq, Structural)]
pub enum PyComparisonValue {
    Implemented(bool),
    NotImplemented,
}

/// An operation on an object. A name is that of a string object.
#[derive(Debug, Clone, Copy, PartialEq, Eq, Structural)]
#[allow(inconsistent_fields)]
pub enum Operation {
    Str,
    Length,
    IsTrue,
    Bytes,
    Reversed,
    Contains { needle: PyObjectRef },
    GetItem { needle: PyObjectRef },
    SetItem { needle: PyObjectRef, value: PyObjectRef },
    DelItem { needle: PyObjectRef },
    GetIter,
    Next,
    GetAttr { name: PyObjectRef },
    SetAttr { name: PyObjectRef, value: PySetterValue },
    RichCompareBool { other: PyObjectRef, op: PyComparisonOp },
    Repr,
    Hash,
}

/// What is asked of the interpreter: an operation on an object.
#[derive(Debug, Clone, Copy, PartialEq, Eq, Structural)]
pub struct Request {
    pub target: PyObjectRef,
    pub operation: Operation,
}

/// A weak reference that the interpreter is asked to make, and the class of the proxy that it is
/// for.
pub struct NewProxy {
    pub referent: PyObjectRef,
    pub callback: Option<PyObjectRef>,
    pub weak_cls: PyTypeRef,
    pub cls: PyTypeRef,
}

/// What a slot for an operation on sequences or mappings does with the proxy it is called on.
#[derive(Debug, Clone, Copy, PartialEq, Eq, Structural)]
pub enum SlotMethod {
    NotImplemented,
    Len,
    Contains,
    GetItem,
    SetOrDelItem,
}

/// The operation that a slot passes on when it is called with an item and a value, as far as it
/// takes them.
pub open spec fn slot_operation(
    slot: SlotMethod,
    needle: PyObjectRef,
    value: Option<PyObjectRef>,
) -> Option<Operation> {
    match slot {
        SlotMethod::NotImplemented => None,
        SlotMethod::Len => Some(Operation::Length),
        SlotMethod::Contains => Some(Operation::Contains { needle }),
        SlotMethod::GetItem => Some(Operation::GetItem { needle }),
        SlotMethod::SetOrDelItem => Some(
            match value {
                Some(value) => Operation::SetItem { needle, value },
                None => Operation::DelItem { needle },
            },
        ),
    }
}

/// The slots of a class for operations on sequences.
#[derive(Debug, Clone, Copy, PartialEq, Eq, Structural)]
pub struct PySequenceMethods {
    pub length: SlotMethod,
    pub concat: SlotMethod,
    pub repeat: SlotMethod,
    pub item: SlotMethod,
    pub ass_item: SlotMethod,
    pub contains: SlotMethod,
    pub inplace_concat: SlotMethod,
    pub inplace_repeat: SlotMethod,
}

/// The slots of a class for operations on mappings.
#[derive(Debug, Clone, Copy, PartialEq, Eq, Structural)]
pub struct PyMappingMethods {
    pub length: SlotMethod,
    pub subscript: SlotMethod,
    pub ass_subscript: SlotMethod,
}

/// Whether `r` is the error for a referent that is gone.
pub open spec fn reference_error<T>(r: Result<T, PyBaseException>, vm: VirtualMachine) -> bool {
    match r {
        Ok(_) => false,
        Err(e) => e.class == vm.ctx.types.reference_error && e.message@
            == "weakly-referenced object no longer exists"@,
    }
}

/// Whether `r` passes an operation on to the referent of a proxy while it lives, and is the error
/// for one that is gone otherwise.
pub open spec fn passes_on(
    proxy: PyWeakProxy,
    operation: Operation,
    vm: VirtualMachine,
    r: Result<Request, PyBaseException>,
) -> bool {
    if vm.live@.contains(proxy.weak.referent) {
        r == Ok::<Request, PyBaseException>(Request { target: proxy.weak.referent, operation })
    } else {
        reference_error(r, vm)
    }
}

fn new_reference_error(vm: &VirtualMachine) -> (r: PyBaseException)
    ensures
        r.class == vm.ctx.types.reference_error,
        r.message@ == "weakly-referenced object no longer exists"@,
{
    PyBaseException {
        class: vm.ctx.types.reference_error,
        message: "weakly-referenced object no longer exists".to_owned(),
    }
}

/// What the class of proxies has in its slots: it is not hashable.
pub open spec fn proxy_slots() -> Slots {
    Slots {
        new: true,
        getattro: true,
        setattro: true,
        richcompare: true,
        as_sequence: true,
        as_mapping: true,
        repr: true,
        iter: true,
        iternext: true,
        hash: false,
    }
}

pub open spec fn proxy_methods() -> Methods {
    Methods {
        dunder_str: true,
        dunder_bool: true,
        dunder_bytes: true,
        dunder_reversed: true,
        dunder_contains: true,
    }
}

impl PyWeakProxy {
    /// The class of proxies.
    pub fn class(ctx: &Context) -> (r: PyTypeRef)
        ensures
            r == ctx.types.weakproxy_type,
    {
        ctx.types.weakproxy_type
    }

    /// Takes the arguments of a new proxy of class `cls`. The weak references of all proxies have
    /// one class of their own, which is made the first time: with the generic class they would
    /// mess up the count of weak references.
    pub fn py_new(cls: PyTypeRef, args: WeakProxyNewArgs, vm: &mut VirtualMachine) -> (r: NewProxy)
        requires
            old(vm).wf(),
        ensures
            final(vm).wf(),
            final(vm).weak_subclass == Some(r.weak_cls),
            final(vm).live@ == old(vm).live@,
            final(vm).ctx.types == old(vm).ctx.types,
            match old(vm).weak_subclass {
                Some(c) => r.weak_cls == c && final(vm).ctx == old(vm).ctx,
                None => {
                    let made = final(vm).ctx.classes@.last();
                    &&& r.weak_cls.0 == old(vm).ctx.classes@.len()
                    &&& final(vm).ctx.classes@.len() == old(vm).ctx.classes@.len() + 1
                    &&& final(vm).ctx.classes@.drop_last() == old(vm).ctx.classes@
                    &&& made.name@ == "__weakproxy"@
                    &&& made.base == Some(old(vm).ctx.types.weakref_type)
                    &&& made.slots
                        == old(vm).ctx.classes@[old(vm).ctx.types.weakref_type.0 as int].slots
                    &&& made.methods == no_methods()
                },
            },
            r.referent == args.referent,
            r.callback == (match args.callback {
                OptionalArg::Present(callback) => Some(callback),
                OptionalArg::Missing => None,
            }),
            r.cls == cls,
    {
        let weak_cls = match vm.weak_subclass {
            Some(weak_cls) => weak_cls,
            None => {
                let weakref_type = vm.ctx.types.weakref_type;
                let slots = vm.ctx.classes[weakref_type.0].slots;
                let weak_cls = vm.ctx.new_class("__weakproxy", weakref_type, slots);
                vm.weak_subclass = Some(weak_cls);
                weak_cls
            },
        };
        NewProxy {
            referent: args.referent,
            callback: match args.callback {
                OptionalArg::Present(callback) => Some(callback),
                OptionalArg::Missing => None,
            },
            weak_cls,
            cls,
        }
    }

    /// The proxy of a weak reference that was made for it, or why there is none.
    pub fn with_weak(weak: Result<PyWeak, PyBaseException>) -> (r: Result<Self, PyBaseException>)
        ensures
            match weak {
                Ok(weak) => r == Ok::<Self, PyBaseException>(PyWeakProxy { weak }),
                Err(e) => r == Err::<Self, PyBaseException>(e),
            },
    {
        match weak {
            Ok(weak) => Ok(PyWeakProxy { weak }),
            Err(e) => Err(e),
        }
    }

    /// The referent, or an error once it is gone.
    pub fn try_upgrade(&self, vm: &VirtualMachine) -> (r: Result<PyObjectRef, PyBaseException>)
        ensures
            vm.live@.contains(self.weak.referent) ==> r == Ok::<PyObjectRef, PyBaseException>(
                self.weak.referent,
            ),
            !vm.live@.contains(self.weak.referent) ==> reference_error(r, *vm),
    {
        match self.weak.upgrade(vm) {
            Some(obj) => Ok(obj),
            None => Err(new_reference_error(vm)),
        }
    }

    fn pass_on(&self, operation: Operation, vm: &VirtualMachine) -> (r: Result<
        Request,
        PyBaseException,
    >)
        ensures
            passes_on(*self, operation, *vm, r),
    {
        let target = self.try_upgrade(vm)?;
        Ok(Request { target, operation })
    }

    pub fn __str__(&self, vm: &VirtualMachine) -> (r: Result<Request, PyBaseException>)
        ensures
            passes_on(*self, Operation::Str, *vm, r),
    {
        self.pass_on(Operation::Str, vm)
    }

    pub fn len(&self, vm: &VirtualMachine) -> (r: Result<Request, PyBaseException>)
        ensures
            passes_on(*self, Operation::Length, *vm, r),
    {
        self.pass_on(Operation::Length, vm)
    }

    pub fn __bool__(&self, vm: &VirtualMachine) -> (r: Result<Request, PyBaseException>)
        ensures
            passes_on(*self, Operation::IsTrue, *vm, r),
    {
        self.pass_on(Operation::IsTrue, vm)
    }

    pub fn __bytes__(&self, vm: &VirtualMachine) -> (r: Result<Request, PyBaseException>)
        ensures
            passes_on(*self, Operation::Bytes, *vm, r),
    {
        self.pass_on(Operation::Bytes, vm)
    }

    pub fn __reversed__(&self, vm: &VirtualMachine) -> (r: Result<Request, PyBaseException>)
        ensures
            passes_on(*self, Operation::Reversed, *vm, r),
    {
        self.pass_on(Operation::Reversed, vm)
    }

    pub fn __contains__(&self, needle: PyObjectRef, vm: &VirtualMachine) -> (r: Result<
        Request,
        PyBaseException,
    >)
        ensures
            passes_on(*self, Operation::Contains { needle }, *vm, r),
    {
        self.pass_on(Operation::Contains { needle }, vm)
    }

    pub fn getitem(&self, needle: PyObjectRef, vm: &VirtualMachine) -> (r: Result<
        Request,
        PyBaseException,
    >)
        ensures
            passes_on(*self, Operation::GetItem { needle }, *vm, r),
    {
        self.pass_on(Operation::GetItem { needle }, vm)
    }

    pub fn setitem(&self, needle: PyObjectRef, value: PyObjectRef, vm: &VirtualMachine) -> (r:
        Result<Request, PyBaseException>)
        ensures
            passes_on(*self, Operation::SetItem { needle, value }, *vm, r),
    {
        self.pass_on(Operation::SetItem { needle, value }, vm)
    }

    pub fn delitem(&self, needle: PyObjectRef, vm: &VirtualMachine) -> (r: Result<
        Request,
        PyBaseException,
    >)
        ensures
            passes_on(*self, Operation::DelItem { needle }, *vm, r),
    {
        self.pass_on(Operation::DelItem { needle }, vm)
    }

    pub fn iter(&self, vm: &VirtualMachine) -> (r: Result<Request, PyBaseException>)
        ensures
            passes_on(*self, Operation::GetIter, *vm, r),
    {
        self.pass_on(Operation::GetIter, vm)
    }

    pub fn next(&self, vm: &VirtualMachine) -> (r: Result<Request, PyBaseException>)
        ensures
            passes_on(*self, Operation::Next, *vm, r),
    {
        self.pass_on(Operation::Next, vm)
    }

    pub fn getattro(&self, name: PyObjectRef, vm: &VirtualMachine) -> (r: Result<
        Request,
        PyBaseException,
    >)
        ensures
            passes_on(*self, Operation::GetAttr { name }, *vm, r),
    {
        self.pass_on(Operation::GetAttr { name }, vm)
    }

    pub fn setattro(&self, name: PyObjectRef, value: PySetterValue, vm: &VirtualMachine) -> (r:
        Result<Request, PyBaseException>)
        ensures
            passes_on(*self, Operation::SetAttr { name, value }, *vm, r),
    {
        self.pass_on(Operation::SetAttr { name, value }, vm)
    }

    pub fn cmp(&self, other: PyObjectRef, op: PyComparisonOp, vm: &VirtualMachine) -> (r: Result<
        Request,
        PyBaseException,
    >)
        ensures
            passes_on(*self, Operation::RichCompareBool { other, op }, *vm, r),
    {
        self.pass_on(Operation::RichCompareBool { other, op }, vm)
    }

    /// What a comparison gives, once the referent has been compared: it is never left to the
    /// other object.
    pub fn compared(result: Result<bool, PyBaseException>) -> (r: Result<
        PyComparisonValue,
        PyBaseException,
    >)
        ensures
            match result {
                Ok(b) => r == Ok::<PyComparisonValue, PyBaseException>(
                    PyComparisonValue::Implemented(b),
                ),
                Err(e) => r == Err::<PyComparisonValue, PyBaseException>(e),
            },
    {
        match result {
            Ok(b) => Ok(PyComparisonValue::Implemented(b)),
            Err(e) => Err(e),
        }
    }

    pub fn repr(&self, vm: &VirtualMachine) -> (r: Result<Request, PyBaseException>)
        ensures
            passes_on(*self, Operation::Repr, *vm, r),
    {
        self.pass_on(Operation::Repr, vm)
    }

    pub fn hash(&self, vm: &VirtualMachine) -> (r: Result<Request, PyBaseException>)
        ensures
            passes_on(*self, Operation::Hash, *vm, r),
    {
        self.pass_on(Operation::Hash, vm)
    }

    /// Sets an item to a value, or deletes it where there is none.
    pub fn ass_subscript(
        &self,
        needle: PyObjectRef,
        value: Option<PyObjectRef>,
        vm: &VirtualMachine,
    ) -> (r: Result<Request, PyBaseException>)
        ensures
            passes_on(
                *self,
                match value {
                    Some(value) => Operation::SetItem { needle, value },
                    None => Operation::DelItem { needle },
                },
                *vm,
                r,
            ),
    {
        match value {
            Some(value) => self.setitem(needle, value, vm),
            None => self.delitem(needle, vm),
        }
    }

    /// Calls a slot for an operation on sequences or mappings, unless it is not implemented.
    pub fn call_slot(
        &self,
        slot: SlotMethod,
        needle: PyObjectRef,
        value: Option<PyObjectRef>,
        vm: &VirtualMachine,
    ) -> (r: Option<Result<Request, PyBaseException>>)
        ensures
            match slot_operation(slot, needle, value) {
                Some(operation) => r is Some && passes_on(*self, operation, *vm, r->Some_0),
                None => r is None,
            },
    {
        match slot {
            SlotMethod::NotImplemented => None,
            SlotMethod::Len => Some(self.len(vm)),
            SlotMethod::Contains => Some(self.__contains__(needle, vm)),
            SlotMethod::GetItem => Some(self.getitem(needle, vm)),
            SlotMethod::SetOrDelItem => Some(self.ass_subscript(needle, value, vm)),
        }
    }

    /// The operations on sequences that a proxy passes on.
    pub fn as_sequence() -> (r: PySequenceMethods)
        ensures
            r == (PySequenceMethods {
                length: SlotMethod::Len,
                concat: SlotMethod::NotImplemented,
                repeat: SlotMethod::NotImplemented,
                item: SlotMethod::NotImplemented,
                ass_item: SlotMethod::NotImplemented,
                contains: SlotMethod::Contains,
                inplace_concat: SlotMethod::NotImplemented,
                inplace_repeat: SlotMethod::NotImplemented,
            }),
    {
        PySequenceMethods {
            length: SlotMethod::Len,
            concat: SlotMethod::NotImplemented,
            repeat: SlotMethod::NotImplemented,
            item: SlotMethod::NotImplemented,
            ass_item: SlotMethod::NotImplemented,
            contains: SlotMethod::Contains,
            inplace_concat: SlotMethod::NotImplemented,
            inplace_repeat: SlotMethod::NotImplemented,
        }
    }

    /// The operations on mappings that a proxy passes on.
    pub fn as_mapping() -> (r: PyMappingMethods)
        ensures
            r == (PyMappingMethods {
                length: SlotMethod::Len,
                subscript: SlotMethod::GetItem,
                ass_subscript: SlotMethod::SetOrDelItem,
            }),
    {
        PyMappingMethods {
            length: SlotMethod::Len,
            subscript: SlotMethod::GetItem,
            ass_subscript: SlotMethod::SetOrDelItem,
        }
    }
}

/// Gives the class of proxies its slots and methods.
pub fn init(context: &mut Context)
    requires
        old(context).wf(),
    ensures
        final(context).wf(),
        final(context).types == old(context).types,
        final(context).classes@.len() == old(context).classes@.len(),
        forall|i: int|
            0 <= i < old(context).classes@.len() && i != old(context).types.weakproxy_type.0
                ==> final(context).classes@[i] == old(context).classes@[i],
        ({
            let before = old(context).classes@[old(context).types.weakproxy_type.0 as int];
            let after = final(context).classes@[old(context).types.weakproxy_type.0 as int];
            &&& after.name@ == before.name@
            &&& after.base == before.base
            &&& after.slots == proxy_slots()
            &&& after.methods == proxy_methods()
        }),
{
    let at: usize = PyWeakProxy::class(context).0;
    let class = &mut context.classes[at];
    class.slots = Slots {
        new: true,
        getattro: true,
        setattro: true,
        richcompare: true,
        as_sequence: true,
        as_mapping: true,
        repr: true,
        iter: true,
        iternext: true,
        hash: false,
    };
    class.methods = Methods {
        dunder_str: true,
        dunder_bool: true,
        dunder_bytes: true,
        dunder_reversed: true,
        dunder_contains: true,
    };
}

/// Whether a referent lives decides every operation alike: on a proxy of one that is gone, any
/// two operations end in the same error, and on one that lives in none.
pub proof fn proxies_fail_alike(
    proxy: PyWeakProxy,
    a: Operation,
    b: Operation,
    vm: VirtualMachine,
    ra: Result<Request, PyBaseException>,
    rb: Result<Request, PyBaseException>,
)
    requires
        passes_on(proxy, a, vm, ra),
        passes_on(proxy, b, vm, rb),
    ensures
        ra is Err == rb is Err,
        ra is Err == !vm.live@.contains(proxy.weak.referent),
        ra is Err ==> ra->Err_0.class == rb->Err_0.class && ra->Err_0.message@
            == rb->Err_0.message@,
        ra is Ok ==> ra->Ok_0.target == rb->Ok_0.target,
{
}

} // verus!
