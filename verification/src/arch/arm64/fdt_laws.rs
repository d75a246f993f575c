//! What does not matter in a device tree: the order in which the properties
//! of a node stand.

use vstd::prelude::*;
use vstd::string::StringSliceAdditionalSpecFns;
use crate::bytes::be32;
use super::fdt::{
    blank_node, bridge, bridge_windows, cells_value, closed, defaults, intid, lemma_text_end,
    machine_of, node_named, ram_banks, text_at, text_end, walk, with_compatible, with_property,
    with_text_property, word_aligned, Machine, Node, PciHost, PsciConduit, FDT_BEGIN_NODE,
    FDT_END_NODE, FDT_NOP, FDT_PROP, MAX_RAM,
};

verus! {

/// A part of a device tree.
pub enum Item {
    /// A node opens under a name.
    Open(Seq<u8>),
    /// A property of the node that opened last: its name and its value.
    Property(Seq<u8>, Seq<u8>),
    /// A node closes.
    Close,
}

/// The parts of the tree in the structure block of `b` from `p` on, in order;
/// `None` where one of them does not lie in the blob.
pub open spec fn items(b: Seq<u8>, strings: int, p: int) -> Option<Seq<Item>>
    decreases if p < b.len() { b.len() - p } else { 0 },
{
    if p < 0 || strings < 0 || p + 4 > b.len() {
        None
    } else {
        let token = be32(b, p);
        if token == FDT_BEGIN_NODE {
            proof {
                lemma_text_end(b, p + 4);
            }
            led_by(
                Item::Open(text_at(b, p + 4)),
                items(b, strings, word_aligned(text_end(b, p + 4) + 1)),
            )
        } else if token == FDT_END_NODE {
            led_by(Item::Close, items(b, strings, p + 4))
        } else if token == FDT_PROP {
            if p + 12 > b.len() {
                None
            } else {
                let len = be32(b, p + 4);
                let name = strings + be32(b, p + 8);
                let val = p + 12;
                if name > b.len() || val + len > b.len() {
                    None
                } else {
                    led_by(
                        Item::Property(text_at(b, name), b.subrange(val, val + len)),
                        items(b, strings, word_aligned(val + len)),
                    )
                }
            }
        } else if token == FDT_NOP {
            items(b, strings, p + 4)
        } else {
            Some(Seq::empty())
        }
    }
}

/// `first`, then what follows.
pub open spec fn led_by(first: Item, rest: Option<Seq<Item>>) -> Option<Seq<Item>> {
    match rest {
        Some(r) => Some(seq![first] + r),
        None => None,
    }
}

/// The parts of the device tree in blob `b`.
pub open spec fn tree(b: Seq<u8>) -> Option<Seq<Item>> {
    items(b, be32(b, 12), be32(b, 8))
}

/// Parts `i` and `j` are properties of a node with nothing but properties
/// between them.
pub open spec fn together(x: Seq<Item>, i: int, j: int) -> bool {
    &&& 0 <= i < x.len()
    &&& 0 <= j < x.len()
    &&& forall|k: int| (i <= k <= j || j <= k <= i) ==> #[trigger] x[k] is Property
}

/// Every property of `x` is one of `y`, in the same run of properties.
#[verifier::opaque]
pub open spec fn found_again(x: Seq<Item>, y: Seq<Item>) -> bool {
    forall|i: int|
        0 <= i < x.len() && (#[trigger] x[i]) is Property ==> exists|j: int|
            #[trigger] together(y, i, j) && y[j] == x[i]
}

/// Two trees differ at most in the order of the properties of their nodes.
pub open spec fn reordered(x: Seq<Item>, y: Seq<Item>) -> bool {
    &&& x.len() == y.len()
    &&& forall|i: int|
        0 <= i < x.len() && !((#[trigger] x[i]) is Property && y[i] is Property) ==> x[i] == y[i]
    &&& found_again(x, y)
    &&& found_again(y, x)
}

/// No node has two properties of the same name in a row of properties.
#[verifier::opaque]
pub open spec fn names_differ(x: Seq<Item>) -> bool {
    forall|i: int, j: int|
        i < j && #[trigger] together(x, i, j) ==> x[i]->Property_0 != x[j]->Property_0
}

/// The name is that of a property whose value is a text.
pub open spec fn is_text(name: Seq<u8>) -> bool {
    ||| name == "status".spec_bytes()
    ||| name == "device_type".spec_bytes()
    ||| name == "method".spec_bytes()
}

/// The values that are texts have their ends.
pub open spec fn texts_end(x: Seq<Item>) -> bool {
    forall|i: int|
        0 <= i < x.len() && (#[trigger] x[i]) is Property && is_text(x[i]->Property_0)
            ==> x[i]->Property_1.contains(0u8)
}

/// The devices that a node is.
struct Devices {
    gic: bool,
    uart: bool,
    virtio: bool,
    timer: bool,
    psci: bool,
    gicv3: bool,
    pcie: bool,
}

/// What the texts of a node, and its name, say.
struct Texts {
    cpu: bool,
    memory: bool,
    method: PsciConduit,
    ok: bool,
}

/// What an open node says, apart from where in its blob it stands.
struct Meaning {
    addr_cells: u32,
    size_cells: u32,
    devices: Devices,
    texts: Texts,
    reg: Seq<u8>,
    ranges: Seq<u8>,
    busrange: Seq<u8>,
    irq: Seq<u8>,
}

spec fn devices_of_node(n: Node) -> Devices {
    Devices {
        gic: n.is_gic,
        uart: n.is_uart,
        virtio: n.is_virtio,
        timer: n.is_timer,
        psci: n.is_psci,
        gicv3: n.is_gicv3,
        pcie: n.is_pcie,
    }
}

spec fn texts_of_node(n: Node) -> Texts {
    Texts { cpu: n.is_cpu, memory: n.is_memory, method: n.method, ok: n.status_ok }
}

spec fn meaning(b: Seq<u8>, n: Node) -> Meaning {
    Meaning {
        addr_cells: n.child_addr_cells,
        size_cells: n.child_size_cells,
        devices: devices_of_node(n),
        texts: texts_of_node(n),
        reg: b.subrange(n.reg_off as int, n.reg_off + n.reg_len),
        ranges: b.subrange(n.ranges_off as int, n.ranges_off + n.ranges_len),
        busrange: b.subrange(n.busrange_off as int, n.busrange_off + n.busrange_len),
        irq: b.subrange(n.irq_off as int, n.irq_off + n.irq_len),
    }
}

/// What a node says once it has the properties `x`, in order.
spec fn noted(m: Meaning, x: Seq<Item>) -> Meaning
    decreases x.len(),
{
    if x.len() == 0 {
        m
    } else {
        noted(with_value(m, x[0]->Property_0, x[0]->Property_1), x.drop_first())
    }
}

/// A text that ends inside a value is the same read from the value alone.
proof fn lemma_text_inside(b: Seq<u8>, val: int, len: int, at: int, k: int)
    requires
        0 <= val,
        0 <= at <= k < len,
        val + len <= b.len(),
        b[val + k] == 0,
    ensures
        text_end(b, val + at) == val + text_end(b.subrange(val, val + len), at),
        text_end(b.subrange(val, val + len), at) <= len,
    decreases len - at,
{
    let v = b.subrange(val, val + len);
    assert(v[at] == b[val + at]);
    if b[val + at] != 0 {
        lemma_text_inside(b, val, len, at + 1, k);
    }
}

/// What a text property says.
enum TextNote {
    Status(bool),
    DeviceType(bool, bool),
    Method(PsciConduit),
    Nothing,
}

#[verifier::opaque]
spec fn text_note(name: Seq<u8>, text: Seq<u8>) -> TextNote {
    if name == "status".spec_bytes() {
        TextNote::Status(text == "okay".spec_bytes() || text == "ok".spec_bytes())
    } else if name == "device_type".spec_bytes() {
        TextNote::DeviceType(text == "cpu".spec_bytes(), text == "memory".spec_bytes())
    } else if name == "method".spec_bytes() {
        TextNote::Method(
            if text == "hvc".spec_bytes() {
                PsciConduit::Hvc
            } else if text == "smc".spec_bytes() {
                PsciConduit::Smc
            } else {
                PsciConduit::Absent
            },
        )
    } else {
        TextNote::Nothing
    }
}

spec fn with_note(x: Texts, t: TextNote) -> Texts {
    match t {
        TextNote::Status(ok) => Texts { ok, ..x },
        TextNote::DeviceType(cpu, memory) => Texts {
            cpu: x.cpu || cpu,
            memory: x.memory || memory,
            ..x
        },
        TextNote::Method(method) => Texts { method, ..x },
        TextNote::Nothing => x,
    }
}

/// A node with other texts.
spec fn node_with_texts(n: Node, x: Texts) -> Node {
    Node { is_cpu: x.cpu, is_memory: x.memory, method: x.method, status_ok: x.ok, ..n }
}

proof fn lemma_text_note(n: Node, name: Seq<u8>, text: Seq<u8>)
    ensures
        with_text_property(n, name, text) == node_with_texts(
            n,
            with_note(texts_of_node(n), text_note(name, text)),
        ),
{
    reveal(with_text_property);
    reveal(text_note);
}

/// A property that is no text says nothing as a text.
proof fn lemma_no_text(name: Seq<u8>, text: Seq<u8>)
    requires
        !is_text(name),
    ensures
        text_note(name, text) is Nothing,
{
    reveal(text_note);
}

/// Texts of different names are of different kinds.
proof fn lemma_kinds_differ(n1: Seq<u8>, t1: Seq<u8>, n2: Seq<u8>, t2: Seq<u8>)
    requires
        n1 != n2,
    ensures
        !(text_note(n1, t1) is Status && text_note(n2, t2) is Status),
        !(text_note(n1, t1) is DeviceType && text_note(n2, t2) is DeviceType),
        !(text_note(n1, t1) is Method && text_note(n2, t2) is Method),
{
    reveal(text_note);
}

/// The devices of either.
spec fn either(x: Devices, d: Devices) -> Devices {
    Devices {
        gic: x.gic || d.gic,
        uart: x.uart || d.uart,
        virtio: x.virtio || d.virtio,
        timer: x.timer || d.timer,
        psci: x.psci || d.psci,
        gicv3: x.gicv3 || d.gicv3,
        pcie: x.pcie || d.pcie,
    }
}

/// A node that is other devices.
spec fn node_with_devices(n: Node, d: Devices) -> Node {
    Node {
        is_gic: d.gic,
        is_uart: d.uart,
        is_virtio: d.virtio,
        is_timer: d.timer,
        is_psci: d.psci,
        is_gicv3: d.gicv3,
        is_pcie: d.pcie,
        ..n
    }
}

/// The devices in a list.
spec fn devices_of(v: Seq<u8>) -> Devices {
    devices_of_node(with_compatible(blank_node(), v))
}

proof fn lemma_devices(n: Node, v: Seq<u8>)
    ensures
        with_compatible(n, v) == node_with_devices(n, either(devices_of_node(n), devices_of(v))),
{
    reveal(with_compatible);
}

/// What a property is to a node.
enum Effect {
    AddrCells(u32),
    SizeCells(u32),
    Reg,
    Ranges,
    BusRange,
    Interrupts,
    Compatible(Devices),
    Text(TextNote),
}

#[verifier::opaque]
spec fn effect(name: Seq<u8>, v: Seq<u8>) -> Effect {
    if name == "#address-cells".spec_bytes() && v.len() == 4 {
        Effect::AddrCells(be32(v, 0) as u32)
    } else if name == "#size-cells".spec_bytes() && v.len() == 4 {
        Effect::SizeCells(be32(v, 0) as u32)
    } else if name == "reg".spec_bytes() {
        Effect::Reg
    } else if name == "ranges".spec_bytes() {
        Effect::Ranges
    } else if name == "bus-range".spec_bytes() {
        Effect::BusRange
    } else if name == "interrupts".spec_bytes() {
        Effect::Interrupts
    } else if name == "compatible".spec_bytes() {
        Effect::Compatible(devices_of(v))
    } else {
        Effect::Text(text_note(name, text_at(v, 0)))
    }
}

/// Properties of different names have different effects.
proof fn lemma_effects_differ(n1: Seq<u8>, v1: Seq<u8>, n2: Seq<u8>, v2: Seq<u8>)
    requires
        n1 != n2,
    ensures
        ({
            let e1 = effect(n1, v1);
            let e2 = effect(n2, v2);
            &&& !(e1 is AddrCells && e2 is AddrCells)
            &&& !(e1 is SizeCells && e2 is SizeCells)
            &&& !(e1 is Reg && e2 is Reg)
            &&& !(e1 is Ranges && e2 is Ranges)
            &&& !(e1 is BusRange && e2 is BusRange)
            &&& !(e1 is Interrupts && e2 is Interrupts)
            &&& e1 is Text && e2 is Text ==> {
                let t1 = e1->Text_0;
                let t2 = e2->Text_0;
                &&& !(t1 is Status && t2 is Status)
                &&& !(t1 is DeviceType && t2 is DeviceType)
                &&& !(t1 is Method && t2 is Method)
            }
        }),
{
    reveal(effect);
    lemma_kinds_differ(n1, text_at(v1, 0), n2, text_at(v2, 0));
}

spec fn addr_cells_after(c: u32, e: Effect) -> u32 {
    match e {
        Effect::AddrCells(x) => x,
        _ => c,
    }
}

spec fn size_cells_after(c: u32, e: Effect) -> u32 {
    match e {
        Effect::SizeCells(x) => x,
        _ => c,
    }
}

spec fn devices_after(x: Devices, e: Effect) -> Devices {
    match e {
        Effect::Compatible(d) => either(x, d),
        _ => x,
    }
}

spec fn texts_after(x: Texts, e: Effect) -> Texts {
    match e {
        Effect::Text(t) => with_note(x, t),
        _ => x,
    }
}

/// What a node says once a property had its effect.
spec fn affected(m: Meaning, e: Effect, v: Seq<u8>) -> Meaning {
    Meaning {
        addr_cells: addr_cells_after(m.addr_cells, e),
        size_cells: size_cells_after(m.size_cells, e),
        devices: devices_after(m.devices, e),
        texts: texts_after(m.texts, e),
        reg: if e is Reg { v } else { m.reg },
        ranges: if e is Ranges { v } else { m.ranges },
        busrange: if e is BusRange { v } else { m.busrange },
        irq: if e is Interrupts { v } else { m.irq },
    }
}

/// What a node says once it has another property.
spec fn with_value(m: Meaning, name: Seq<u8>, v: Seq<u8>) -> Meaning {
    affected(m, effect(name, v), v)
}

/// The node once a property had its effect, whose value is the `len` bytes at
/// `val`.
spec fn node_affected(n: Node, e: Effect, val: usize, len: usize) -> Node {
    let d = devices_after(devices_of_node(n), e);
    let t = texts_after(texts_of_node(n), e);
    Node {
        child_addr_cells: addr_cells_after(n.child_addr_cells, e),
        child_size_cells: size_cells_after(n.child_size_cells, e),
        is_cpu: t.cpu,
        is_memory: t.memory,
        is_gic: d.gic,
        is_gicv3: d.gicv3,
        is_pcie: d.pcie,
        ranges_off: if e is Ranges { val } else { n.ranges_off },
        ranges_len: if e is Ranges { len } else { n.ranges_len },
        busrange_off: if e is BusRange { val } else { n.busrange_off },
        busrange_len: if e is BusRange { len } else { n.busrange_len },
        is_uart: d.uart,
        is_virtio: d.virtio,
        is_timer: d.timer,
        is_psci: d.psci,
        method: t.method,
        reg_off: if e is Reg { val } else { n.reg_off },
        reg_len: if e is Reg { len } else { n.reg_len },
        irq_off: if e is Interrupts { val } else { n.irq_off },
        irq_len: if e is Interrupts { len } else { n.irq_len },
        status_ok: t.ok,
    }
}

/// The same, effect by effect.
spec fn node_changed(n: Node, e: Effect, val: usize, len: usize) -> Node {
    match e {
        Effect::AddrCells(c) => Node { child_addr_cells: c, ..n },
        Effect::SizeCells(c) => Node { child_size_cells: c, ..n },
        Effect::Reg => Node { reg_off: val, reg_len: len, ..n },
        Effect::Ranges => Node { ranges_off: val, ranges_len: len, ..n },
        Effect::BusRange => Node { busrange_off: val, busrange_len: len, ..n },
        Effect::Interrupts => Node { irq_off: val, irq_len: len, ..n },
        Effect::Compatible(d) => node_with_devices(n, either(devices_of_node(n), d)),
        Effect::Text(t) => node_with_texts(n, with_note(texts_of_node(n), t)),
    }
}

#[verifier::spinoff_prover]
proof fn lemma_node_changed(n: Node, e: Effect, val: usize, len: usize)
    ensures
        node_changed(n, e, val, len) == node_affected(n, e, val, len),
{
}

/// A property has the effect that its name and value tell.
proof fn lemma_effect(b: Seq<u8>, n: Node, name: Seq<u8>, val: usize, len: usize)
    requires
        val + len <= b.len(),
        is_text(name) ==> b.subrange(val as int, val + len).contains(0u8),
    ensures
        with_property(b, n, name, val, len) == node_changed(
            n,
            effect(name, b.subrange(val as int, val + len)),
            val,
            len,
        ),
{
    reveal(with_property);
    reveal(effect);
    let v = b.subrange(val as int, val + len);
    if len == 4 {
        assert(be32(b, val as int) == be32(v, 0));
    }
    lemma_devices(n, v);
    lemma_text_note(n, name, text_at(b, val as int));
    if is_text(name) {
        let k = choose|k: int| 0 <= k < v.len() && v[k] == 0u8;
        assert(b[val + k] == 0);
        lemma_text_inside(b, val as int, len as int, 0, k);
        lemma_text_end(v, 0);
        assert(text_at(b, val as int) =~= text_at(v, 0));
    } else {
        lemma_no_text(name, text_at(b, val as int));
        lemma_no_text(name, text_at(v, 0));
    }
}

/// A property does to what a node says what its name and value tell.
proof fn lemma_property(b: Seq<u8>, n: Node, name: Seq<u8>, val: usize, len: usize)
    requires
        n.within(b.len() as int),
        val + len <= b.len(),
        is_text(name) ==> b.subrange(val as int, val + len).contains(0u8),
    ensures
        with_property(b, n, name, val, len).within(b.len() as int),
        meaning(b, with_property(b, n, name, val, len)) == with_value(
            meaning(b, n),
            name,
            b.subrange(val as int, val + len),
        ),
{
    lemma_effect(b, n, name, val, len);
    let v = b.subrange(val as int, val + len);
    lemma_node_changed(n, effect(name, v), val, len);
    lemma_affected(b, n, effect(name, v), val, len);
}

/// An effect on a node is that on what it says.
proof fn lemma_affected(b: Seq<u8>, n: Node, e: Effect, val: usize, len: usize)
    requires
        n.within(b.len() as int),
        val + len <= b.len(),
    ensures
        node_affected(n, e, val, len).within(b.len() as int),
        meaning(b, node_affected(n, e, val, len)) == affected(
            meaning(b, n),
            e,
            b.subrange(val as int, val + len),
        ),
{
    let n2 = node_affected(n, e, val, len);
    assert(devices_of_node(n2) == devices_after(devices_of_node(n), e));
    assert(texts_of_node(n2) == texts_after(texts_of_node(n), e));
}

/// Effects of different kinds on texts commute, and so do all on devices.
proof fn lemma_parts_commute(x: Texts, d: Devices, e1: Effect, e2: Effect)
    requires
        e1 is Text && e2 is Text ==> {
            let t1 = e1->Text_0;
            let t2 = e2->Text_0;
            &&& !(t1 is Status && t2 is Status)
            &&& !(t1 is DeviceType && t2 is DeviceType)
            &&& !(t1 is Method && t2 is Method)
        },
    ensures
        texts_after(texts_after(x, e1), e2) == texts_after(texts_after(x, e2), e1),
        devices_after(devices_after(d, e1), e2) == devices_after(devices_after(d, e2), e1),
{
}

/// Properties of different names can be noted in either order.
proof fn lemma_commute(m: Meaning, n1: Seq<u8>, v1: Seq<u8>, n2: Seq<u8>, v2: Seq<u8>)
    requires
        n1 != n2,
    ensures
        with_value(with_value(m, n1, v1), n2, v2) == with_value(with_value(m, n2, v2), n1, v1),
{
    lemma_effects_differ(n1, v1, n2, v2);
    let e1 = effect(n1, v1);
    let e2 = effect(n2, v2);
    lemma_parts_commute(m.texts, m.devices, e1, e2);
}

/// All of `x` are properties, and no two have the same name.
spec fn distinct(x: Seq<Item>) -> bool {
    &&& forall|i: int| 0 <= i < x.len() ==> (#[trigger] x[i]) is Property
    &&& forall|i: int, j: int|
        0 <= i < j < x.len() ==> (#[trigger] x[i])->Property_0 != (#[trigger] x[j])->Property_0
}

/// A property can be noted before those that stand before it.
proof fn lemma_noted_first(m: Meaning, x: Seq<Item>, j: int)
    requires
        distinct(x),
        0 <= j < x.len(),
    ensures
        noted(m, x) == noted(with_value(m, x[j]->Property_0, x[j]->Property_1), x.remove(j)),
        distinct(x.remove(j)),
    decreases j,
{
    let y = x.remove(j);
    assert forall|i: int| 0 <= i < y.len() implies (#[trigger] y[i]) is Property by {
        assert(y[i] == if i < j { x[i] } else { x[i + 1] });
    }
    assert forall|i: int, k: int| 0 <= i < k < y.len() implies (#[trigger] y[i])->Property_0 != (
    #[trigger] y[k])->Property_0 by {
        let a = if i < j { i } else { i + 1 };
        let b = if k < j { k } else { k + 1 };
        assert(y[i] == x[a] && y[k] == x[b]);
    }
    if j == 0 {
        assert(y =~= x.drop_first());
    } else {
        let t = x.drop_first();
        assert(distinct(t)) by {
            assert forall|i: int| 0 <= i < t.len() implies (#[trigger] t[i]) is Property by {
                assert(t[i] == x[i + 1]);
            }
            assert forall|i: int, k: int| 0 <= i < k < t.len() implies (#[trigger] t[i])->Property_0
                != (#[trigger] t[k])->Property_0 by {
                assert(t[i] == x[i + 1] && t[k] == x[k + 1]);
            }
        }
        let m1 = with_value(m, x[0]->Property_0, x[0]->Property_1);
        lemma_noted_first(m1, t, j - 1);
        assert(t[j - 1] == x[j]);
        lemma_commute(m, x[0]->Property_0, x[0]->Property_1, x[j]->Property_0, x[j]->Property_1);
        assert(y[0] == x[0]);
        assert(y.drop_first() =~= t.remove(j - 1));
    }
}

/// `x` and `y` hold the same properties.
spec fn same_properties(x: Seq<Item>, y: Seq<Item>) -> bool {
    &&& x.len() == y.len()
    &&& forall|i: int| 0 <= i < x.len() ==> y.contains(#[trigger] x[i])
    &&& forall|i: int| 0 <= i < y.len() ==> x.contains(#[trigger] y[i])
}

/// The same properties say the same in any order.
proof fn lemma_any_order(m: Meaning, x: Seq<Item>, y: Seq<Item>)
    requires
        distinct(x),
        distinct(y),
        same_properties(x, y),
    ensures
        noted(m, x) == noted(m, y),
    decreases x.len(),
{
    if x.len() > 0 {
        assert(y.contains(x[0]));
        let j = choose|j: int| 0 <= j < y.len() && y[j] == x[0];
        lemma_noted_first(m, x, 0);
        lemma_noted_first(m, y, j);
        let t = x.remove(0);
        let u = y.remove(j);
        assert forall|i: int| 0 <= i < t.len() implies u.contains(#[trigger] t[i]) by {
            assert(t[i] == x[i + 1]);
            assert(y.contains(x[i + 1]));
            let k = choose|k: int| 0 <= k < y.len() && y[k] == x[i + 1];
            assert(k != j) by {
                assert(x[0]->Property_0 != x[i + 1]->Property_0);
            }
            assert(u[if k < j { k } else { k - 1 }] == y[k]);
        }
        assert forall|i: int| 0 <= i < u.len() implies t.contains(#[trigger] u[i]) by {
            let k = if i < j { i } else { i + 1 };
            assert(u[i] == y[k]);
            assert(x.contains(y[k]));
            let l = choose|l: int| 0 <= l < x.len() && x[l] == y[k];
            assert(l != 0) by {
                if k < j {
                    assert(y[k]->Property_0 != y[j]->Property_0);
                } else {
                    assert(y[j]->Property_0 != y[k]->Property_0);
                }
            }
            assert(t[l - 1] == x[l]);
        }
        lemma_any_order(with_value(m, x[0]->Property_0, x[0]->Property_1), t, u);
    }
}

/// The number of properties that `x` starts with.
spec fn run_length(x: Seq<Item>) -> int
    decreases x.len(),
{
    if x.len() == 0 || !(x[0] is Property) {
        0
    } else {
        1 + run_length(x.drop_first())
    }
}

proof fn lemma_run_length(x: Seq<Item>)
    ensures
        0 <= run_length(x) <= x.len(),
        forall|i: int| 0 <= i < run_length(x) ==> (#[trigger] x[i]) is Property,
        run_length(x) < x.len() ==> !(x[run_length(x)] is Property),
    decreases x.len(),
{
    if x.len() > 0 && x[0] is Property {
        let t = x.drop_first();
        lemma_run_length(t);
        assert forall|i: int| 0 <= i < run_length(x) implies (#[trigger] x[i]) is Property by {
            if i > 0 {
                assert(t[i - 1] == x[i]);
            }
        }
        if run_length(x) < x.len() {
            assert(t[run_length(t)] == x[run_length(x)]);
        }
    }
}

/// Number of the bytes of a blob from `p` on.
spec fn bytes_from(b: Seq<u8>, p: int) -> int {
    if p < b.len() {
        b.len() - p
    } else {
        0
    }
}

/// Where the structure goes on, past tokens that say nothing.
spec fn past_nops(b: Seq<u8>, p: int) -> int
    decreases bytes_from(b, p),
{
    if p < 0 || p + 4 > b.len() || be32(b, p) != FDT_NOP {
        p
    } else {
        past_nops(b, p + 4)
    }
}

proof fn lemma_past_nops(b: Seq<u8>, strings: int, p: int, open: Seq<Node>, deeper: nat, m: Machine)
    requires
        items(b, strings, p) is Some,
    ensures
        ({
            let q = past_nops(b, p);
            &&& p <= q
            &&& 0 <= q
            &&& q + 4 <= b.len()
            &&& be32(b, q) != FDT_NOP
            &&& items(b, strings, q) == items(b, strings, p)
            &&& walk(b, strings, q, open, deeper, m) == walk(b, strings, p, open, deeper, m)
        }),
    decreases bytes_from(b, p),
{
    if be32(b, p) == FDT_NOP {
        lemma_past_nops(b, strings, p + 4, open, deeper, m);
    }
}

/// Reading the properties that the tree goes on with: where the structure goes
/// on after them, and the node that has them.
proof fn lemma_run(
    b: Seq<u8>,
    strings: int,
    p: int,
    open: Seq<Node>,
    deeper: nat,
    m: Machine,
    k: int,
) -> (r: (int, Seq<Node>))
    requires
        b.len() <= u32::MAX,
        items(b, strings, p) is Some,
        0 <= k <= items(b, strings, p)->0.len(),
        forall|i: int| 0 <= i < k ==> (#[trigger] items(b, strings, p)->0[i]) is Property,
        texts_end(items(b, strings, p)->0),
        forall|i: int| 0 <= i < open.len() ==> (#[trigger] open[i]).within(b.len() as int),
    ensures
        items(b, strings, r.0) == Some(items(b, strings, p)->0.skip(k)),
        walk(b, strings, p, open, deeper, m) == walk(b, strings, r.0, r.1, deeper, m),
        r.1.len() == open.len(),
        forall|i: int| 0 <= i < open.len() ==> (#[trigger] r.1[i]).within(b.len() as int),
        if deeper > 0 || open.len() == 0 {
            r.1 == open
        } else {
            &&& r.1.drop_last() == open.drop_last()
            &&& meaning(b, r.1.last()) == noted(
                meaning(b, open.last()),
                items(b, strings, p)->0.take(k),
            )
        },
    decreases k,
{
    let x = items(b, strings, p)->0;
    if k == 0 {
        assert(x.skip(0) =~= x);
        assert(x.take(0).len() == 0);
        (p, open)
    } else {
        lemma_past_nops(b, strings, p, open, deeper, m);
        let q = past_nops(b, p);
        assert(x[0] is Property);
        let token = be32(b, q);
        assert(token == FDT_PROP);
        let len = be32(b, q + 4);
        let at = strings + be32(b, q + 8);
        let val = q + 12;
        let next = word_aligned(val + len);
        let name = text_at(b, at);
        let v = b.subrange(val, val + len);
        let rest = items(b, strings, next)->0;
        assert(x == seq![Item::Property(name, v)] + rest);
        assert(x[0] == Item::Property(name, v));
        assert(x.drop_first() =~= rest);
        assert forall|i: int| 0 <= i < k - 1 implies (#[trigger] rest[i]) is Property by {
            assert(rest[i] == x[i + 1]);
        }
        assert(texts_end(rest)) by {
            assert forall|i: int|
                0 <= i < rest.len() && (#[trigger] rest[i]) is Property && is_text(rest[i]->Property_0)
                implies rest[i]->Property_1.contains(0u8) by {
                assert(rest[i] == x[i + 1]);
            }
        }
        let open1 = if deeper > 0 || open.len() == 0 {
            open
        } else {
            let n = with_property(b, open.last(), name, val as usize, len as usize);
            lemma_property(b, open.last(), name, val as usize, len as usize);
            open.update(open.len() - 1, n)
        };
        let r = lemma_run(b, strings, next, open1, deeper, m, k - 1);
        assert(rest.skip(k - 1) =~= x.skip(k));
        if !(deeper > 0 || open.len() == 0) {
            assert(open1.drop_last() =~= open.drop_last());
            assert(x.take(k).drop_first() =~= rest.take(k - 1));
            assert(x.take(k)[0] == x[0]);
        }
        r
    }
}

/// The numbers in a value are the same read from the value alone.
proof fn lemma_cells_inside(b: Seq<u8>, off: int, len: int, o: int, cells: int)
    requires
        0 <= off,
        off + len <= b.len(),
        0 <= o,
        0 <= cells,
        o + 4 * cells <= len,
    ensures
        cells_value(b, off + o, cells) == cells_value(b.subrange(off, off + len), o, cells),
{
}

proof fn lemma_banks_inside(
    b: Seq<u8>,
    off: int,
    len: int,
    o: int,
    ac: int,
    sc: int,
    ram: Seq<(u64, u64)>,
)
    requires
        0 <= off,
        off + len <= b.len(),
        0 <= o,
        0 <= ac,
        0 <= sc,
    ensures
        ram_banks(b, off + o, off + len, ac, sc, ram) == ram_banks(
            b.subrange(off, off + len),
            o,
            len,
            ac,
            sc,
            ram,
        ),
    decreases len - o,
{
    let entry = 4 * (ac + sc);
    if entry > 0 && o + entry <= len && ram.len() < MAX_RAM {
        lemma_cells_inside(b, off, len, o, ac);
        lemma_cells_inside(b, off, len, o + 4 * ac, sc);
        let base = cells_value(b, off + o, ac);
        let size = cells_value(b, off + o + 4 * ac, sc);
        let more = if size > 0 { ram.push((base as u64, size as u64)) } else { ram };
        lemma_banks_inside(b, off, len, o + entry, ac, sc, more);
    }
}

proof fn lemma_windows_inside(
    b: Seq<u8>,
    off: int,
    len: int,
    o: int,
    ac: int,
    csc: int,
    host: PciHost,
)
    requires
        0 <= off,
        off + len <= b.len(),
        0 <= o,
        0 <= ac,
        0 <= csc,
    ensures
        bridge_windows(b, off + o, off + len, ac, csc, host) == bridge_windows(
            b.subrange(off, off + len),
            o,
            len,
            ac,
            csc,
            host,
        ),
    decreases len - o,
{
    let entry = 4 * (3 + ac + csc);
    if o + entry <= len {
        lemma_cells_inside(b, off, len, o + 4, 2);
        lemma_cells_inside(b, off, len, o + 12, ac);
        lemma_cells_inside(b, off, len, o + 12 + 4 * ac, csc);
        let w = (
            cells_value(b, off + o + 12, ac) as u64,
            cells_value(b, off + o + 4, 2) as u64,
            cells_value(b, off + o + 12 + 4 * ac, csc) as u64,
        );
        let space = b[off + o] % 4;
        let next = if space == 1 {
            PciHost { io: w, ..host }
        } else if space == 2 {
            PciHost { mem32: w, ..host }
        } else {
            host
        };
        lemma_windows_inside(b, off, len, o + entry, ac, csc, next);
    }
}

/// Nodes that say the same describe the same host bridge.
proof fn lemma_bridge_same(a: Seq<u8>, na: Node, b: Seq<u8>, nb: Node, ac: int, sc: int)
    requires
        na.within(a.len() as int),
        nb.within(b.len() as int),
        meaning(a, na) == meaning(b, nb),
        0 <= ac,
        0 <= sc,
        na.reg_len >= 4 * (ac + sc),
    ensures
        bridge(a, na, ac, sc) == bridge(b, nb, ac, sc),
{
    lemma_lengths(a, na, b, nb);
    let l = na.reg_len as int;
    lemma_cells_inside(a, na.reg_off as int, l, 0, ac);
    lemma_cells_inside(b, nb.reg_off as int, l, 0, ac);
    lemma_cells_inside(a, na.reg_off as int, l, 4 * ac, sc);
    lemma_cells_inside(b, nb.reg_off as int, l, 4 * ac, sc);
    if na.busrange_len >= 8 {
        let va = meaning(a, na).busrange;
        let vb = meaning(b, nb).busrange;
        assert(va[3] == a[na.busrange_off + 3] && va[7] == a[na.busrange_off + 7]);
        assert(vb[3] == b[nb.busrange_off + 3] && vb[7] == b[nb.busrange_off + 7]);
    }
    if na.child_addr_cells == 3 {
        let host = PciHost {
            ecam: cells_value(a, na.reg_off as int, ac) as u64,
            ecam_size: cells_value(a, na.reg_off + 4 * ac, sc) as u64,
            bus_start: if na.busrange_len >= 8 { a[na.busrange_off + 3] } else { 0 },
            bus_end: if na.busrange_len >= 8 { a[na.busrange_off + 7] } else { 255 },
            io: (0, 0, 0),
            mem32: (0, 0, 0),
        };
        let r = na.ranges_len as int;
        let csc = na.child_size_cells as int;
        lemma_windows_inside(a, na.ranges_off as int, r, 0, ac, csc, host);
        lemma_windows_inside(b, nb.ranges_off as int, r, 0, ac, csc, host);
    }
}

/// Nodes that say the same have values of the same lengths.
proof fn lemma_lengths(a: Seq<u8>, na: Node, b: Seq<u8>, nb: Node)
    requires
        na.within(a.len() as int),
        nb.within(b.len() as int),
        meaning(a, na) == meaning(b, nb),
    ensures
        na.reg_len == nb.reg_len,
        na.ranges_len == nb.ranges_len,
        na.busrange_len == nb.busrange_len,
        na.irq_len == nb.irq_len,
{
    assert(meaning(a, na).reg.len() == na.reg_len);
    assert(meaning(b, nb).reg.len() == nb.reg_len);
    assert(meaning(a, na).ranges.len() == na.ranges_len);
    assert(meaning(b, nb).ranges.len() == nb.ranges_len);
    assert(meaning(a, na).busrange.len() == na.busrange_len);
    assert(meaning(b, nb).busrange.len() == nb.busrange_len);
    assert(meaning(a, na).irq.len() == na.irq_len);
    assert(meaning(b, nb).irq.len() == nb.irq_len);
}

/// The interrupts in values that are the same.
proof fn lemma_irq_same(a: Seq<u8>, na: Node, b: Seq<u8>, nb: Node, o: int)
    requires
        na.within(a.len() as int),
        nb.within(b.len() as int),
        meaning(a, na) == meaning(b, nb),
        0 <= o,
        o + 8 <= na.irq_len,
    ensures
        intid(a, na.irq_off + o) == intid(b, nb.irq_off + o),
{
    lemma_lengths(a, na, b, nb);
    let l = na.irq_len as int;
    lemma_cells_inside(a, na.irq_off as int, l, o, 1);
    lemma_cells_inside(b, nb.irq_off as int, l, o, 1);
    lemma_cells_inside(a, na.irq_off as int, l, o + 4, 1);
    lemma_cells_inside(b, nb.irq_off as int, l, o + 4, 1);
}

/// The addresses in values that are the same.
proof fn lemma_reg_same(a: Seq<u8>, na: Node, b: Seq<u8>, nb: Node, o: int, cells: int)
    requires
        na.within(a.len() as int),
        nb.within(b.len() as int),
        meaning(a, na) == meaning(b, nb),
        0 <= o,
        0 <= cells,
        o + 4 * cells <= na.reg_len,
    ensures
        cells_value(a, na.reg_off + o, cells) == cells_value(b, nb.reg_off + o, cells),
{
    lemma_lengths(a, na, b, nb);
    let l = na.reg_len as int;
    lemma_cells_inside(a, na.reg_off as int, l, o, cells);
    lemma_cells_inside(b, nb.reg_off as int, l, o, cells);
}

/// Nodes that say the same tell the same of the machine when they close.
#[verifier::rlimit(60)]
proof fn lemma_closed_same(
    a: Seq<u8>,
    na: Node,
    pa: Node,
    b: Seq<u8>,
    nb: Node,
    pb: Node,
    m: Machine,
)
    requires
        na.within(a.len() as int),
        nb.within(b.len() as int),
        meaning(a, na) == meaning(b, nb),
        pa.child_addr_cells == pb.child_addr_cells,
        pa.child_size_cells == pb.child_size_cells,
    ensures
        closed(a, m, na, pa) == closed(b, m, nb, pb),
{
    reveal(closed);
    lemma_lengths(a, na, b, nb);
    let ac = pa.child_addr_cells as int;
    let sc = pa.child_size_cells as int;
    let entry = 4 * (ac + sc);
    assert(devices_of_node(na) == devices_of_node(nb));
    assert(texts_of_node(na) == texts_of_node(nb));
    let l = na.reg_len as int;
    if l >= 4 * ac {
        lemma_reg_same(a, na, b, nb, 0, ac);
    }
    if l >= entry {
        lemma_bridge_same(a, na, b, nb, ac, sc);
        let ram = m.ram;
        lemma_banks_inside(a, na.reg_off as int, l, 0, ac, sc, ram);
        lemma_banks_inside(b, nb.reg_off as int, l, 0, ac, sc, ram);
    }
    if l >= 2 * entry {
        lemma_reg_same(a, na, b, nb, entry, ac);
        lemma_reg_same(a, na, b, nb, entry + 4 * ac, sc);
    }
    if na.irq_len >= 12 {
        lemma_irq_same(a, na, b, nb, 0);
    }
    if na.irq_len >= 36 {
        lemma_irq_same(a, na, b, nb, 24);
    }
}

/// Open nodes that say the same, one by one.
spec fn say_the_same(a: Seq<u8>, oa: Seq<Node>, b: Seq<u8>, ob: Seq<Node>) -> bool {
    &&& oa.len() == ob.len()
    &&& forall|i: int| 0 <= i < oa.len() ==> (#[trigger] oa[i]).within(a.len() as int)
    &&& forall|i: int| 0 <= i < ob.len() ==> (#[trigger] ob[i]).within(b.len() as int)
    &&& forall|i: int|
        0 <= i < oa.len() ==> meaning(a, #[trigger] oa[i]) == meaning(b, ob[i])
}

/// Trees that differ only in the order of properties do so from their `k`th
/// part on, where no run of properties is split.
proof fn lemma_rest_reordered(x: Seq<Item>, y: Seq<Item>, k: int)
    requires
        reordered(x, y),
        names_differ(x),
        names_differ(y),
        texts_end(x),
        texts_end(y),
        0 < k <= x.len(),
        k == x.len() || !(x[k] is Property) || !(x[k - 1] is Property),
        k == y.len() || !(y[k] is Property) || !(y[k - 1] is Property),
    ensures
        reordered(x.skip(k), y.skip(k)),
        names_differ(x.skip(k)),
        names_differ(y.skip(k)),
        texts_end(x.skip(k)),
        texts_end(y.skip(k)),
{
    lemma_rest_found(x, y, k);
    lemma_rest_found(y, x, k);
    lemma_rest_wf(x, k);
    lemma_rest_wf(y, k);
    let t = x.skip(k);
    let u = y.skip(k);
    assert forall|i: int|
        0 <= i < t.len() && !((#[trigger] t[i]) is Property && u[i] is Property) implies t[i] == u[i] by {
        assert(t[i] == x[i + k] && u[i] == y[i + k]);
    }
}

proof fn lemma_rest_wf(x: Seq<Item>, k: int)
    requires
        names_differ(x),
        texts_end(x),
        0 <= k <= x.len(),
    ensures
        names_differ(x.skip(k)),
        texts_end(x.skip(k)),
{
    reveal(names_differ);
    let t = x.skip(k);
    assert forall|i: int, j: int| i < j && #[trigger] together(t, i, j) implies t[i]->Property_0
        != t[j]->Property_0 by {
        assert(together(x, i + k, j + k)) by {
            assert forall|l: int| (i + k <= l <= j + k || j + k <= l <= i + k) implies #[trigger] x[l] is Property by {
                assert(t[l - k] is Property);
            }
        }
    }
    assert forall|i: int|
        0 <= i < t.len() && (#[trigger] t[i]) is Property && is_text(t[i]->Property_0) implies
        t[i]->Property_1.contains(0u8) by {
        assert(t[i] == x[i + k]);
    }
}

proof fn lemma_rest_found(x: Seq<Item>, y: Seq<Item>, k: int)
    requires
        x.len() == y.len(),
        found_again(x, y),
        0 < k <= x.len(),
        k == y.len() || !(y[k] is Property) || !(y[k - 1] is Property),
    ensures
        found_again(x.skip(k), y.skip(k)),
{
    reveal(found_again);
    let t = x.skip(k);
    let u = y.skip(k);
    assert forall|i: int| 0 <= i < t.len() && (#[trigger] t[i]) is Property implies exists|j: int|
        #[trigger] together(u, i, j) && u[j] == t[i] by {
        assert(x[i + k] == t[i]);
        let j = choose|j: int| #[trigger] together(y, i + k, j) && y[j] == x[i + k];
        if j < k {
            assert(y[k] is Property);
            assert(y[k - 1] is Property);
        }
        assert(together(u, i, j - k)) by {
            assert forall|l: int| (i <= l <= j - k || j - k <= l <= i) implies #[trigger] u[l] is Property by {
                assert(y[l + k] is Property);
            }
        }
        assert(u[j - k] == y[j]);
    }
}

/// The runs of properties at the start of two such trees hold the same
/// properties.
proof fn lemma_runs_same(x: Seq<Item>, y: Seq<Item>)
    requires
        reordered(x, y),
        names_differ(x),
        names_differ(y),
    ensures
        run_length(x) == run_length(y),
        distinct(x.take(run_length(x))),
        distinct(y.take(run_length(x))),
        same_properties(x.take(run_length(x)), y.take(run_length(x))),
{
    lemma_run_length(x);
    lemma_run_length(y);
    let k = run_length(x);
    // Where one tree has a property, so has the other.
    assert forall|i: int| 0 <= i < x.len() implies ((#[trigger] x[i]) is Property) == (y[i] is Property) by {
        if !(x[i] is Property && y[i] is Property) {
            assert(x[i] == y[i]);
        }
    }
    assert(run_length(y) == k) by {
        if k < run_length(y) {
            assert(y[k] is Property);
            assert(x[k] is Property);
        }
        if run_length(y) < k {
            assert(x[run_length(y)] is Property);
        }
    }
    lemma_run_distinct(x, k);
    lemma_run_distinct(y, k);
    lemma_run_found(x, y, k);
    lemma_run_found(y, x, k);
}

proof fn lemma_run_distinct(x: Seq<Item>, k: int)
    requires
        names_differ(x),
        0 <= k <= x.len(),
        forall|i: int| 0 <= i < k ==> (#[trigger] x[i]) is Property,
    ensures
        distinct(x.take(k)),
{
    reveal(names_differ);
    let t = x.take(k);
    assert forall|i: int| 0 <= i < t.len() implies (#[trigger] t[i]) is Property by {
        assert(t[i] == x[i]);
    }
    assert forall|i: int, j: int| 0 <= i < j < t.len() implies (#[trigger] t[i])->Property_0 != (
    #[trigger] t[j])->Property_0 by {
        assert(together(x, i, j));
        assert(t[i] == x[i] && t[j] == x[j]);
    }
}

proof fn lemma_run_found(x: Seq<Item>, y: Seq<Item>, k: int)
    requires
        x.len() == y.len(),
        found_again(x, y),
        0 <= k <= x.len(),
        forall|i: int| 0 <= i < k ==> (#[trigger] x[i]) is Property,
        k == y.len() || !(y[k] is Property),
    ensures
        forall|i: int| 0 <= i < k ==> y.take(k).contains(#[trigger] x.take(k)[i]),
{
    reveal(found_again);
    assert forall|i: int| 0 <= i < k implies y.take(k).contains(#[trigger] x.take(k)[i]) by {
        assert(x.take(k)[i] == x[i]);
        assert(x[i] is Property);
        let j = choose|j: int| #[trigger] together(y, i, j) && y[j] == x[i];
        if j >= k {
            assert(y[k] is Property);
        }
        assert(y.take(k)[j] == y[j]);
    }
}

/// Two blobs go on with trees that differ only in the order of properties,
/// inside open nodes that say the same.
spec fn follow_alike(
    a: Seq<u8>,
    sa: int,
    p: int,
    oa: Seq<Node>,
    b: Seq<u8>,
    sb: int,
    q: int,
    ob: Seq<Node>,
) -> bool {
    &&& a.len() <= u32::MAX
    &&& b.len() <= u32::MAX
    &&& items(a, sa, p) is Some
    &&& items(b, sb, q) is Some
    &&& reordered(items(a, sa, p)->0, items(b, sb, q)->0)
    &&& names_differ(items(a, sa, p)->0)
    &&& names_differ(items(b, sb, q)->0)
    &&& texts_end(items(a, sa, p)->0)
    &&& texts_end(items(b, sb, q)->0)
    &&& say_the_same(a, oa, b, ob)
}

/// Trees that differ only in the order of properties tell the same.
proof fn lemma_walk_same(
    a: Seq<u8>,
    sa: int,
    p: int,
    oa: Seq<Node>,
    b: Seq<u8>,
    sb: int,
    q: int,
    ob: Seq<Node>,
    deeper: nat,
    m: Machine,
)
    requires
        follow_alike(a, sa, p, oa, b, sb, q, ob),
    ensures
        walk(a, sa, p, oa, deeper, m) == walk(b, sb, q, ob, deeper, m),
    decreases items(a, sa, p)->0.len(), 1int,
{
    let x = items(a, sa, p)->0;
    let y = items(b, sb, q)->0;
    lemma_past_nops(a, sa, p, oa, deeper, m);
    lemma_past_nops(b, sb, q, ob, deeper, m);
    let pn = past_nops(a, p);
    let qn = past_nops(b, q);
    if x.len() == 0 {
        lemma_no_item(a, sa, pn, oa, deeper, m);
        lemma_no_item(b, sb, qn, ob, deeper, m);
    } else if x[0] is Property {
        lemma_properties_same(a, sa, p, oa, b, sb, q, ob, deeper, m);
    } else if x[0] is Open {
        lemma_open_same(a, sa, pn, oa, b, sb, qn, ob, deeper, m);
    } else {
        lemma_close_same(a, sa, pn, oa, b, sb, qn, ob, deeper, m);
    }
}

/// Where a tree ends nothing more is told.
proof fn lemma_no_item(b: Seq<u8>, strings: int, p: int, open: Seq<Node>, deeper: nat, m: Machine)
    requires
        items(b, strings, p) is Some,
        items(b, strings, p)->0.len() == 0,
        be32(b, p) != FDT_NOP,
    ensures
        walk(b, strings, p, open, deeper, m) == Some(m),
{
}

/// The step over the start of a node.
proof fn lemma_open_same(
    a: Seq<u8>,
    sa: int,
    p: int,
    oa: Seq<Node>,
    b: Seq<u8>,
    sb: int,
    q: int,
    ob: Seq<Node>,
    deeper: nat,
    m: Machine,
)
    requires
        follow_alike(a, sa, p, oa, b, sb, q, ob),
        items(a, sa, p)->0.len() > 0,
        items(a, sa, p)->0[0] is Open,
        be32(a, p) != FDT_NOP,
        be32(b, q) != FDT_NOP,
    ensures
        walk(a, sa, p, oa, deeper, m) == walk(b, sb, q, ob, deeper, m),
    decreases items(a, sa, p)->0.len(), 0int,
{
    let x = items(a, sa, p)->0;
    let y = items(b, sb, q)->0;
    assert(x[0] == y[0]);
    lemma_rest_reordered(x, y, 1);
    lemma_next_item(a, sa, p);
    lemma_next_item(b, sb, q);
    let an = word_aligned(text_end(a, p + 4) + 1);
    let bn = word_aligned(text_end(b, q + 4) + 1);
    if deeper == 0 && oa.len() < super::fdt::DEPTH {
        let n = node_named(text_at(a, p + 4));
        let oa1 = oa.push(n);
        let ob1 = ob.push(n);
        assert(a.subrange(0, 0) =~= b.subrange(0, 0));
        assert(meaning(a, n) == meaning(b, n));
        assert forall|i: int| 0 <= i < oa1.len() implies meaning(a, #[trigger] oa1[i]) == meaning(
            b,
            ob1[i],
        ) by {
            if i < oa.len() {
                assert(oa1[i] == oa[i]);
            }
        }
        lemma_walk_same(a, sa, an, oa1, b, sb, bn, ob1, 0, m);
    } else {
        lemma_walk_same(a, sa, an, oa, b, sb, bn, ob, deeper + 1, m);
    }
}

/// The step over the end of a node.
proof fn lemma_close_same(
    a: Seq<u8>,
    sa: int,
    p: int,
    oa: Seq<Node>,
    b: Seq<u8>,
    sb: int,
    q: int,
    ob: Seq<Node>,
    deeper: nat,
    m: Machine,
)
    requires
        follow_alike(a, sa, p, oa, b, sb, q, ob),
        items(a, sa, p)->0.len() > 0,
        items(a, sa, p)->0[0] is Close,
        be32(a, p) != FDT_NOP,
        be32(b, q) != FDT_NOP,
    ensures
        walk(a, sa, p, oa, deeper, m) == walk(b, sb, q, ob, deeper, m),
    decreases items(a, sa, p)->0.len(), 0int,
{
    let x = items(a, sa, p)->0;
    let y = items(b, sb, q)->0;
    assert(x[0] == y[0]);
    lemma_rest_reordered(x, y, 1);
    lemma_next_item(a, sa, p);
    lemma_next_item(b, sb, q);
    if deeper > 0 {
        lemma_walk_same(a, sa, p + 4, oa, b, sb, q + 4, ob, (deeper - 1) as nat, m);
    } else if oa.len() > 0 {
        let ra = oa.drop_last();
        let rb = ob.drop_last();
        let pa = if ra.len() > 0 { ra.last() } else { blank_node() };
        let pb = if rb.len() > 0 { rb.last() } else { blank_node() };
        let last = oa.len() - 1;
        assert(meaning(a, oa[last]) == meaning(b, ob[last]));
        assert(pa.child_addr_cells == pb.child_addr_cells && pa.child_size_cells
            == pb.child_size_cells) by {
            if ra.len() > 0 {
                assert(ra.last() == oa[last - 1] && rb.last() == ob[last - 1]);
                assert(meaning(a, oa[last - 1]) == meaning(b, ob[last - 1]));
            }
        }
        lemma_closed_same(a, oa.last(), pa, b, ob.last(), pb, m);
        assert forall|i: int| 0 <= i < ra.len() implies meaning(a, #[trigger] ra[i]) == meaning(
            b,
            rb[i],
        ) by {
            assert(ra[i] == oa[i]);
        }
        if let Some(m2) = closed(a, m, oa.last(), pa) {
            lemma_walk_same(a, sa, p + 4, ra, b, sb, q + 4, rb, 0, m2);
        }
    }
}

/// What a token that is not idle stands for.
proof fn lemma_next_item(b: Seq<u8>, strings: int, p: int)
    requires
        items(b, strings, p) is Some,
        be32(b, p) != FDT_NOP,
        items(b, strings, p)->0.len() > 0,
    ensures
        ({
            let x = items(b, strings, p)->0;
            match x[0] {
                Item::Open(name) => be32(b, p) == FDT_BEGIN_NODE && name == text_at(b, p + 4)
                    && items(b, strings, word_aligned(text_end(b, p + 4) + 1)) == Some(x.skip(1)),
                Item::Close => be32(b, p) == FDT_END_NODE && items(b, strings, p + 4) == Some(
                    x.skip(1),
                ),
                Item::Property(..) => be32(b, p) == FDT_PROP,
            }
        }),
{
    let x = items(b, strings, p)->0;
    let token = be32(b, p);
    if token == FDT_BEGIN_NODE {
        let r = items(b, strings, word_aligned(text_end(b, p + 4) + 1))->0;
        assert(x.skip(1) =~= r);
    } else if token == FDT_END_NODE {
        let r = items(b, strings, p + 4)->0;
        assert(x.skip(1) =~= r);
    }
}

/// The step over a run of properties.
proof fn lemma_properties_same(
    a: Seq<u8>,
    sa: int,
    p: int,
    oa: Seq<Node>,
    b: Seq<u8>,
    sb: int,
    q: int,
    ob: Seq<Node>,
    deeper: nat,
    m: Machine,
)
    requires
        follow_alike(a, sa, p, oa, b, sb, q, ob),
        items(a, sa, p)->0.len() > 0,
        items(a, sa, p)->0[0] is Property,
    ensures
        walk(a, sa, p, oa, deeper, m) == walk(b, sb, q, ob, deeper, m),
    decreases items(a, sa, p)->0.len(), 0int,
{
    let x = items(a, sa, p)->0;
    let y = items(b, sb, q)->0;
    let k = run_length(x);
    lemma_runs_same(x, y);
    lemma_run_length(x);
    lemma_run_length(y);
    let (p2, oa2) = lemma_run(a, sa, p, oa, deeper, m, k);
    let (q2, ob2) = lemma_run(b, sb, q, ob, deeper, m, k);
    lemma_rest_reordered(x, y, k);
    if !(deeper > 0 || oa.len() == 0) {
        let last = oa.len() - 1;
        assert(meaning(a, oa[last]) == meaning(b, ob[last]));
        lemma_any_order(meaning(a, oa.last()), x.take(k), y.take(k));
        assert forall|i: int| 0 <= i < oa2.len() implies meaning(a, #[trigger] oa2[i]) == meaning(
            b,
            ob2[i],
        ) by {
            if i < last {
                assert(oa2.drop_last()[i] == oa.drop_last()[i]);
                assert(ob2.drop_last()[i] == ob.drop_last()[i]);
                assert(meaning(a, oa[i]) == meaning(b, ob[i]));
            }
        }
    }
    lemma_walk_same(a, sa, p2, oa2, b, sb, q2, ob2, deeper, m);
}

/// The order of properties does not matter: device trees that differ only in
/// the order in which the properties stand in their nodes, none of which has
/// two of the same name, describe the same machine. The values that are texts
/// are to have their ends.
pub proof fn law_property_order_does_not_matter(a: Seq<u8>, b: Seq<u8>)
    requires
        16 <= a.len() <= u32::MAX,
        16 <= b.len() <= u32::MAX,
        tree(a) is Some,
        tree(b) is Some,
        reordered(tree(a)->0, tree(b)->0),
        names_differ(tree(a)->0),
        names_differ(tree(b)->0),
        texts_end(tree(a)->0),
        texts_end(tree(b)->0),
    ensures
        machine_of(a) == machine_of(b),
{
    lemma_walk_same(
        a,
        be32(a, 12),
        be32(a, 8),
        Seq::empty(),
        b,
        be32(b, 12),
        be32(b, 8),
        Seq::empty(),
        0,
        defaults(),
    );
}

} // verus!
