use pycodegen::weakproxy::{
    init, Context, Methods, Operation, OptionalArg, PyBaseException, PyComparisonOp,
    PyComparisonValue, PyObjectRef, PySetterValue, PyType, PyTypeRef, PyWeak, PyWeakProxy, Request,
    SlotMethod, Slots, TypeZoo, VirtualMachine, WeakProxyNewArgs,
};

const NO_SLOTS: Slots = Slots {
    new: false,
    getattro: false,
    setattro: false,
    richcompare: false,
    as_sequence: false,
    as_mapping: false,
    repr: false,
    iter: false,
    iternext: false,
    hash: false,
};

const NO_METHODS: Methods = Methods {
    dunder_str: false,
    dunder_bool: false,
    dunder_bytes: false,
    dunder_reversed: false,
    dunder_contains: false,
};

fn class(name: &str, slots: Slots) -> PyType {
    PyType { name: name.to_string(), base: None, slots, methods: NO_METHODS }
}

fn machine(live: Vec<PyObjectRef>) -> VirtualMachine {
    let weakref = Slots { new: true, hash: true, ..NO_SLOTS };
    VirtualMachine {
        ctx: Context {
            types: TypeZoo {
                weakproxy_type: PyTypeRef(0),
                weakref_type: PyTypeRef(1),
                reference_error: PyTypeRef(2),
            },
            classes: vec![
                class("weakproxy", NO_SLOTS),
                class("weakref", weakref),
                class("ReferenceError", NO_SLOTS),
            ],
        },
        live,
        weak_subclass: None,
    }
}

fn proxy() -> PyWeakProxy {
    PyWeakProxy { weak: PyWeak { referent: PyObjectRef(7) } }
}

fn asks(r: Result<Request, PyBaseException>, operation: Operation) {
    match r {
        Ok(request) => assert_eq!(request, Request { target: PyObjectRef(7), operation }),
        Err(_) => panic!("the referent lives"),
    }
}

#[test]
fn every_operation_is_passed_on() {
    let vm = machine(vec![PyObjectRef(3), PyObjectRef(7)]);
    let p = proxy();
    let x = PyObjectRef(11);
    let y = PyObjectRef(12);
    asks(p.__str__(&vm), Operation::Str);
    asks(p.len(&vm), Operation::Length);
    asks(p.__bool__(&vm), Operation::IsTrue);
    asks(p.__bytes__(&vm), Operation::Bytes);
    asks(p.__reversed__(&vm), Operation::Reversed);
    asks(p.__contains__(x, &vm), Operation::Contains { needle: x });
    asks(p.getitem(x, &vm), Operation::GetItem { needle: x });
    asks(p.setitem(x, y, &vm), Operation::SetItem { needle: x, value: y });
    asks(p.delitem(x, &vm), Operation::DelItem { needle: x });
    asks(p.iter(&vm), Operation::GetIter);
    asks(p.next(&vm), Operation::Next);
    asks(p.getattro(x, &vm), Operation::GetAttr { name: x });
    let delete = PySetterValue::Delete;
    asks(p.setattro(x, delete, &vm), Operation::SetAttr { name: x, value: delete });
    let op = PyComparisonOp::Le;
    asks(p.cmp(x, op, &vm), Operation::RichCompareBool { other: x, op });
    asks(p.repr(&vm), Operation::Repr);
    asks(p.hash(&vm), Operation::Hash);
    asks(p.ass_subscript(x, Some(y), &vm), Operation::SetItem { needle: x, value: y });
    asks(p.ass_subscript(x, None, &vm), Operation::DelItem { needle: x });
}

#[test]
fn slots_pass_on_what_they_are_for() {
    let vm = machine(vec![PyObjectRef(7)]);
    let p = proxy();
    let x = PyObjectRef(11);
    let y = PyObjectRef(12);
    let call = |slot: SlotMethod, value: Option<PyObjectRef>| match p.call_slot(slot, x, value, &vm)
    {
        Some(r) => r,
        None => panic!("the slot is implemented"),
    };
    let sequence = PyWeakProxy::as_sequence();
    let mapping = PyWeakProxy::as_mapping();
    asks(call(sequence.length, None), Operation::Length);
    asks(call(sequence.contains, None), Operation::Contains { needle: x });
    asks(call(mapping.length, None), Operation::Length);
    asks(call(mapping.subscript, None), Operation::GetItem { needle: x });
    asks(call(mapping.ass_subscript, Some(y)), Operation::SetItem { needle: x, value: y });
    asks(call(mapping.ass_subscript, None), Operation::DelItem { needle: x });
    assert!(p.call_slot(sequence.item, x, None, &vm).is_none());
}

#[test]
fn nothing_is_asked_of_a_dead_referent() {
    let vm = machine(vec![PyObjectRef(3)]);
    let p = proxy();
    for r in [p.__str__(&vm), p.hash(&vm), p.getitem(PyObjectRef(3), &vm)] {
        match r {
            Ok(_) => panic!("the referent is gone"),
            Err(e) => {
                assert_eq!(e.class, PyTypeRef(2));
                assert_eq!(e.message, "weakly-referenced object no longer exists");
            }
        }
    }
    assert!(p.try_upgrade(&vm).is_err());
}

#[test]
fn a_proxy_is_made_with_one_internal_class() {
    let mut vm = machine(vec![PyObjectRef(7)]);
    let args = WeakProxyNewArgs { referent: PyObjectRef(7), callback: OptionalArg::Missing };
    let first = PyWeakProxy::py_new(PyTypeRef(0), args, &mut vm);
    assert_eq!(first.referent, PyObjectRef(7));
    assert_eq!(first.callback, None);
    assert_eq!(first.cls, PyTypeRef(0));
    assert_eq!(first.weak_cls, PyTypeRef(3));
    assert_eq!(vm.ctx.classes.len(), 4);
    assert_eq!(vm.ctx.classes[3].name, "__weakproxy");
    assert_eq!(vm.ctx.classes[3].base, Some(PyTypeRef(1)));
    assert_eq!(vm.ctx.classes[3].slots, vm.ctx.classes[1].slots);
    let callback = OptionalArg::Present(PyObjectRef(9));
    let args = WeakProxyNewArgs { referent: PyObjectRef(7), callback };
    let second = PyWeakProxy::py_new(PyTypeRef(0), args, &mut vm);
    assert_eq!(second.weak_cls, first.weak_cls);
    assert_eq!(second.callback, Some(PyObjectRef(9)));
    assert_eq!(vm.ctx.classes.len(), 4);
    let weak = PyWeak { referent: PyObjectRef(7) };
    assert!(matches!(PyWeakProxy::with_weak(Ok(weak)), Ok(p) if p.weak == weak));
    let e = PyBaseException { class: PyTypeRef(2), message: "no".to_string() };
    assert!(matches!(PyWeakProxy::with_weak(Err(e)), Err(e) if e.message == "no"));
}

#[test]
fn a_comparison_is_implemented() {
    let yes: Result<bool, PyBaseException> = Ok(true);
    assert!(matches!(PyWeakProxy::compared(yes), Ok(PyComparisonValue::Implemented(true))));
    let e = PyBaseException { class: PyTypeRef(2), message: "no".to_string() };
    assert!(PyWeakProxy::compared(Err(e)).is_err());
}

#[test]
fn the_class_gets_its_slots() {
    let mut vm = machine(vec![]);
    assert_eq!(PyWeakProxy::class(&vm.ctx), PyTypeRef(0));
    init(&mut vm.ctx);
    let slots = vm.ctx.classes[0].slots;
    assert!(slots.new && slots.getattro && slots.setattro && slots.richcompare);
    assert!(slots.as_sequence && slots.as_mapping && slots.repr && slots.iter && slots.iternext);
    assert!(!slots.hash);
    assert!(vm.ctx.classes[0].methods.dunder_contains);
    assert_eq!(vm.ctx.classes[2].slots, NO_SLOTS);
    let sequence = PyWeakProxy::as_sequence();
    assert_eq!(sequence.length, SlotMethod::Len);
    assert_eq!(sequence.contains, SlotMethod::Contains);
    assert_eq!(sequence.concat, SlotMethod::NotImplemented);
    assert_eq!(sequence.item, SlotMethod::NotImplemented);
    let mapping = PyWeakProxy::as_mapping();
    assert_eq!(mapping.length, SlotMethod::Len);
    assert_eq!(mapping.subscript, SlotMethod::GetItem);
    assert_eq!(mapping.ass_subscript, SlotMethod::SetOrDelItem);
}
