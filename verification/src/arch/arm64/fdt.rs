//! Flattened device tree parser: just enough to discover the machine (RAM,
//! CPUs, the PSCI conduit, the interrupt controller, the UART, the timer's
//! interrupt, the virtio-mmio transports and the PCIe host bridge).

use vstd::prelude::*;
use vstd::string::StringSliceAdditionalSpecFns;
use crate::bytes::{be32, read_be32, same_bytes, starts_with};

verus! {

pub const FDT_MAGIC: u32 = 0xd00d_feed;

pub const FDT_BEGIN_NODE: u32 = 1;

pub const FDT_END_NODE: u32 = 2;

pub const FDT_PROP: u32 = 3;

pub const FDT_NOP: u32 = 4;

pub const FDT_END: u32 = 9;

/// CPUs we track.
pub const MAX_CPUS: usize = 64;

pub const MAX_RAM: usize = 4;

pub const MAX_VIRTIO: usize = 32;

/// Nodes nested deeper than this are skipped.
pub const DEPTH: usize = 16;

/// PSCI calling convention.
#[derive(Debug, Clone, Copy, PartialEq, Eq, Structural)]
pub enum PsciConduit {
    Absent,
    Hvc,
    Smc,
}

/// A generic ECAM PCIe host bridge.
#[derive(Debug, Clone, Copy, PartialEq, Eq)]
pub struct PciHost {
    pub ecam: u64,
    pub ecam_size: u64,
    pub bus_start: u8,
    pub bus_end: u8,
    /// I/O space window: CPU address, PCI address, size.
    pub io: (u64, u64, u64),
    /// 32-bit memory window: CPU address, PCI address, size.
    pub mem32: (u64, u64, u64),
}

/// What the kernel learns from the device tree.
pub struct MachineInfo {
    /// Base and size of each RAM bank.
    pub ram: [(u64, u64); MAX_RAM],
    pub ram_count: usize,
    /// Affinity values of the CPUs.
    pub cpus: [u64; MAX_CPUS],
    pub cpu_count: usize,
    pub psci: PsciConduit,
    /// Interrupt controller architecture version (2 or 3).
    pub gic_version: u8,
    pub gicd: u64,
    /// Version 2 CPU interface base.
    pub gicc: u64,
    /// Version 3 redistributor region.
    pub gicr: u64,
    pub gicr_size: u64,
    pub uart: u64,
    pub uart_irq: u32,
    /// Virtual timer interrupt.
    pub timer_irq: u32,
    pub virtio: [u64; MAX_VIRTIO],
    pub virtio_count: usize,
    /// PCIe host bridge, if present.
    pub pci: Option<PciHost>,
}

/// What a `MachineInfo` says.
#[verifier::ext_equal]
pub struct Machine {
    pub ram: Seq<(u64, u64)>,
    pub cpus: Seq<u64>,
    pub psci: PsciConduit,
    pub gic_version: u8,
    pub gicd: u64,
    pub gicc: u64,
    pub gicr: u64,
    pub gicr_size: u64,
    pub uart: u64,
    pub uart_irq: u32,
    pub timer_irq: u32,
    pub virtio: Seq<u64>,
    pub pci: Option<PciHost>,
}

impl View for MachineInfo {
    type V = Machine;

    open spec fn view(&self) -> Machine {
        Machine {
            ram: self.ram@.take(self.ram_count as int),
            cpus: self.cpus@.take(self.cpu_count as int),
            psci: self.psci,
            gic_version: self.gic_version,
            gicd: self.gicd,
            gicc: self.gicc,
            gicr: self.gicr,
            gicr_size: self.gicr_size,
            uart: self.uart,
            uart_irq: self.uart_irq,
            timer_irq: self.timer_irq,
            virtio: self.virtio@.take(self.virtio_count as int),
            pci: self.pci,
        }
    }
}

/// What is assumed of the machine where the tree says nothing.
pub open spec fn defaults() -> Machine {
    Machine {
        ram: Seq::empty(),
        cpus: Seq::empty(),
        psci: PsciConduit::Absent,
        gic_version: 2,
        gicd: 0x0800_0000,
        gicc: 0x0801_0000,
        gicr: 0,
        gicr_size: 0,
        uart: 0x0900_0000,
        uart_irq: 33,
        timer_irq: 27,
        virtio: Seq::empty(),
        pci: None,
    }
}

impl MachineInfo {
    /// The lists fit their arrays, and unused entries are zero.
    pub open spec fn wf(&self) -> bool {
        &&& self.ram_count <= MAX_RAM
        &&& self.cpu_count <= MAX_CPUS
        &&& self.virtio_count <= MAX_VIRTIO
        &&& forall|i: int| self.ram_count <= i < MAX_RAM ==> #[trigger] self.ram@[i] == (0u64, 0u64)
        &&& forall|i: int| self.cpu_count <= i < MAX_CPUS ==> #[trigger] self.cpus@[i] == 0
        &&& forall|i: int| self.virtio_count <= i < MAX_VIRTIO ==> #[trigger] self.virtio@[i] == 0
    }

    /// The defaults of QEMU's `virt` machine.
    pub fn qemu_virt_defaults() -> (r: Self)
        ensures
            r.wf(),
            r@ == defaults(),
    {
        MachineInfo {
            ram: [(0, 0); 4],
            ram_count: 0,
            cpus: [0; 64],
            cpu_count: 0,
            psci: PsciConduit::Absent,
            gic_version: 2,
            gicd: 0x0800_0000,
            gicc: 0x0801_0000,
            gicr: 0,
            gicr_size: 0,
            uart: 0x0900_0000,
            uart_irq: 33,
            timer_irq: 27,
            virtio: [0; 32],
            virtio_count: 0,
            pci: None,
        }
    }
}

/// The number in the `cells` big-endian words at `off`; of more than two
/// words only the last two count.
pub open spec fn cells_value(b: Seq<u8>, off: int, cells: int) -> int {
    if cells <= 0 {
        0
    } else if cells == 1 {
        be32(b, off)
    } else {
        be32(b, off + 4 * (cells - 2)) * 0x1_0000_0000 + be32(b, off + 4 * (cells - 1))
    }
}

/// Reads a number of `cells` words.
fn read_cells(b: &[u8], off: usize, cells: u32) -> (r: u64)
    requires
        off + 4 * cells <= b@.len(),
    ensures
        r == cells_value(b@, off as int, cells as int),
{
    assert(b@.len() == b.len());
    let mut v: u64 = 0;
    let mut i: u32 = 0;
    let mut o: usize = off;
    while i < cells
        invariant
            i <= cells,
            o == off + 4 * i,
            off + 4 * cells <= b@.len() <= usize::MAX,
            v == cells_value(b@, off as int, i as int),
        decreases cells - i,
    {
        let w: u32 = read_be32(b, o);
        v = (v % 0x1_0000_0000) * 0x1_0000_0000 + w as u64;
        i += 1;
        o += 4;
    }
    v
}

/// The text of `s` up to the first NUL at or after `off`, or to the end.
pub open spec fn text_at(s: Seq<u8>, off: int) -> Seq<u8> {
    s.subrange(off, text_end(s, off))
}

/// Where the text that starts at `off` ends.
pub open spec fn text_end(s: Seq<u8>, off: int) -> int
    decreases s.len() - off,
{
    if off >= s.len() || s[off] == 0 {
        off
    } else {
        text_end(s, off + 1)
    }
}

/// A text ends at or after its start, and inside the bytes.
pub proof fn lemma_text_end(s: Seq<u8>, off: int)
    requires
        off <= s.len(),
    ensures
        off <= text_end(s, off) <= s.len(),
    decreases s.len() - off,
{
    if off < s.len() && s[off] != 0 {
        lemma_text_end(s, off + 1);
    }
}

/// Reads a NUL-terminated text.
fn cstr(b: &[u8], off: usize) -> (r: &[u8])
    requires
        off <= b@.len(),
    ensures
        r@ == text_at(b@, off as int),
        off <= text_end(b@, off as int) <= b@.len(),
{
    let mut end: usize = off;
    while end < b.len() && b[end] != 0
        invariant
            off <= end <= b@.len(),
            text_end(b@, off as int) == text_end(b@, end as int),
        decreases b@.len() - end,
    {
        end += 1;
    }
    vstd::slice::slice_subrange(b, off, end)
}

/// `list[i..j]` is an item of a NUL-separated list.
pub open spec fn is_item(list: Seq<u8>, i: int, j: int) -> bool {
    &&& 0 <= i <= j <= list.len()
    &&& i == 0 || list[i - 1] == 0
    &&& j == list.len() || list[j] == 0
    &&& forall|k: int| i <= k < j ==> list[k] != 0
}

/// A NUL-separated list has the item `want`.
#[verifier::opaque]
pub open spec fn lists(list: Seq<u8>, want: Seq<u8>) -> bool {
    exists|i: int, j: int| #[trigger] is_item(list, i, j) && list.subrange(i, j) == want
}

/// Whether a NUL-separated string list contains `want`.
fn strlist_contains(list: &[u8], want: &[u8]) -> (r: bool)
    ensures
        r == lists(list@, want@),
{
    let mut start: usize = 0;
    let mut pos: usize = 0;
    loop
        invariant
            start <= pos <= list@.len(),
            start == 0 || list@[start - 1] == 0,
            forall|k: int| start <= k < pos ==> list@[k] != 0,
            forall|i: int, j: int|
                #[trigger] is_item(list@, i, j) && i < start ==> list@.subrange(i, j) != want@,
        decreases list@.len() - pos,
    {
        reveal(lists);
        if pos == list.len() || list[pos] == 0 {
            assert(is_item(list@, start as int, pos as int));
            if same_bytes(vstd::slice::slice_subrange(list, start, pos), want) {
                return true;
            }
            assert forall|i: int, j: int| #[trigger] is_item(list@, i, j) && i < pos + 1 implies list@.subrange(
                i,
                j,
            ) != want@ by {
                if i >= start {
                    if i > start {
                        assert(list@[i - 1] == 0);
                        assert(i - 1 >= pos);
                    }
                    if i == start {
                        if j < pos {
                            assert(list@[j] != 0);
                        }
                        if j > pos {
                            assert(list@[pos as int] != 0);
                        }
                    }
                }
            }
            if pos == list.len() {
                return false;
            }
            start = pos + 1;
        }
        pos += 1;
    }
}

/// Whether the memory at `addr`, whose first bytes are `header`, holds a
/// device tree. `header` is only looked at where `addr` can hold one.
pub fn is_valid(addr: u64, header: &[u8; 8]) -> (r: bool)
    ensures
        r == (addr != 0 && addr % 4 == 0 && be32(header@, 0) == FDT_MAGIC),
{
    if addr == 0 || addr % 4 != 0 {
        return false;
    }
    read_be32(header.as_slice(), 0) == FDT_MAGIC
}

/// Total size of the blob with this header.
pub fn total_size(header: &[u8; 8]) -> (r: u64)
    ensures
        r == be32(header@, 4),
{
    read_be32(header.as_slice(), 4) as u64
}

/// What is collected of a node while it is open.
#[derive(Clone, Copy)]
pub struct Node {
    /// Words of an address and of a size in the node's children.
    pub child_addr_cells: u32,
    pub child_size_cells: u32,
    pub is_cpu: bool,
    pub is_memory: bool,
    pub is_gic: bool,
    pub is_gicv3: bool,
    pub is_pcie: bool,
    pub ranges_off: usize,
    pub ranges_len: usize,
    pub busrange_off: usize,
    pub busrange_len: usize,
    pub is_uart: bool,
    pub is_virtio: bool,
    pub is_timer: bool,
    pub is_psci: bool,
    /// PSCI conduit, taken over when the node closes.
    pub method: PsciConduit,
    pub reg_off: usize,
    pub reg_len: usize,
    pub irq_off: usize,
    pub irq_len: usize,
    pub status_ok: bool,
}

/// A node of which nothing is known.
pub open spec fn blank_node() -> Node {
    Node {
        child_addr_cells: 2,
        child_size_cells: 1,
        is_cpu: false,
        is_memory: false,
        is_gic: false,
        is_gicv3: false,
        is_pcie: false,
        ranges_off: 0,
        ranges_len: 0,
        busrange_off: 0,
        busrange_len: 0,
        is_uart: false,
        is_virtio: false,
        is_timer: false,
        is_psci: false,
        method: PsciConduit::Absent,
        reg_off: 0,
        reg_len: 0,
        irq_off: 0,
        irq_len: 0,
        status_ok: true,
    }
}

impl Node {
    /// A node of which nothing is known.
    fn new() -> (r: Self)
        ensures
            r == blank_node(),
    {
        Node {
            child_addr_cells: 2,
            child_size_cells: 1,
            is_cpu: false,
            is_memory: false,
            is_gic: false,
            is_gicv3: false,
            is_pcie: false,
            ranges_off: 0,
            ranges_len: 0,
            busrange_off: 0,
            busrange_len: 0,
            is_uart: false,
            is_virtio: false,
            is_timer: false,
            is_psci: false,
            method: PsciConduit::Absent,
            reg_off: 0,
            reg_len: 0,
            irq_off: 0,
            irq_len: 0,
            status_ok: true,
        }
    }

    /// The property values that the node refers to lie in a blob of `n` bytes.
    pub open spec fn within(self, n: int) -> bool {
        &&& self.reg_off + self.reg_len <= n
        &&& self.ranges_off + self.ranges_len <= n
        &&& self.busrange_off + self.busrange_len <= n
        &&& self.irq_off + self.irq_len <= n
    }
}

/// The node that opens under the given name.
pub open spec fn node_named(name: Seq<u8>) -> Node {
    Node {
        is_memory: "memory".spec_bytes().is_prefix_of(name),
        is_cpu: "cpu@".spec_bytes().is_prefix_of(name),
        ..blank_node()
    }
}

/// The node `n` compatible with the devices in the list `v`.
#[verifier::opaque]
pub open spec fn with_compatible(n: Node, v: Seq<u8>) -> Node {
    Node {
        is_gic: n.is_gic || lists(v, "arm,cortex-a15-gic".spec_bytes()) || lists(
            v,
            "arm,gic-400".spec_bytes(),
        ),
        is_uart: n.is_uart || lists(v, "arm,pl011".spec_bytes()),
        is_virtio: n.is_virtio || lists(v, "virtio,mmio".spec_bytes()),
        is_timer: n.is_timer || lists(v, "arm,armv8-timer".spec_bytes()),
        is_psci: n.is_psci || lists(v, "arm,psci-1.0".spec_bytes()) || lists(
            v,
            "arm,psci-0.2".spec_bytes(),
        ) || lists(v, "arm,psci".spec_bytes()),
        is_gicv3: n.is_gicv3 || lists(v, "arm,gic-v3".spec_bytes()),
        is_pcie: n.is_pcie || lists(v, "pci-host-ecam-generic".spec_bytes()),
        ..n
    }
}

/// Takes note of what a node is compatible with.
fn set_compatible(n: &Node, v: &[u8]) -> (r: Node)
    ensures
        r == with_compatible(*n, v@),
        r.reg_off == n.reg_off && r.reg_len == n.reg_len,
        r.ranges_off == n.ranges_off && r.ranges_len == n.ranges_len,
        r.busrange_off == n.busrange_off && r.busrange_len == n.busrange_len,
        r.irq_off == n.irq_off && r.irq_len == n.irq_len,
{
    reveal(with_compatible);
    let mut m: Node = *n;
    m.is_gic = m.is_gic || strlist_contains(v, "arm,cortex-a15-gic".as_bytes())
        || strlist_contains(v, "arm,gic-400".as_bytes());
    m.is_uart = m.is_uart || strlist_contains(v, "arm,pl011".as_bytes());
    m.is_virtio = m.is_virtio || strlist_contains(v, "virtio,mmio".as_bytes());
    m.is_timer = m.is_timer || strlist_contains(v, "arm,armv8-timer".as_bytes());
    m.is_psci = m.is_psci || strlist_contains(v, "arm,psci-1.0".as_bytes())
        || strlist_contains(v, "arm,psci-0.2".as_bytes())
        || strlist_contains(v, "arm,psci".as_bytes());
    m.is_gicv3 = m.is_gicv3 || strlist_contains(v, "arm,gic-v3".as_bytes());
    m.is_pcie = m.is_pcie || strlist_contains(v, "pci-host-ecam-generic".as_bytes());
    m
}

/// The node `n` with the property `name`, whose value starts with `text`.
#[verifier::opaque]
pub open spec fn with_text_property(n: Node, name: Seq<u8>, text: Seq<u8>) -> Node {
    if name == "status".spec_bytes() {
        Node { status_ok: text == "okay".spec_bytes() || text == "ok".spec_bytes(), ..n }
    } else if name == "device_type".spec_bytes() {
        Node {
            is_cpu: n.is_cpu || text == "cpu".spec_bytes(),
            is_memory: n.is_memory || text == "memory".spec_bytes(),
            ..n
        }
    } else if name == "method".spec_bytes() {
        Node {
            method: if text == "hvc".spec_bytes() {
                PsciConduit::Hvc
            } else if text == "smc".spec_bytes() {
                PsciConduit::Smc
            } else {
                PsciConduit::Absent
            },
            ..n
        }
    } else {
        n
    }
}

/// Takes note of a text property of an open node.
fn set_text_property(n: &Node, name: &[u8], s: &[u8]) -> (r: Node)
    ensures
        r == with_text_property(*n, name@, s@),
        r.reg_off == n.reg_off && r.reg_len == n.reg_len,
        r.ranges_off == n.ranges_off && r.ranges_len == n.ranges_len,
        r.busrange_off == n.busrange_off && r.busrange_len == n.busrange_len,
        r.irq_off == n.irq_off && r.irq_len == n.irq_len,
{
    reveal(with_text_property);
    let mut m: Node = *n;
    if same_bytes(name, "status".as_bytes()) {
        m.status_ok = same_bytes(s, "okay".as_bytes()) || same_bytes(s, "ok".as_bytes());
    } else if same_bytes(name, "device_type".as_bytes()) {
        m.is_cpu = m.is_cpu || same_bytes(s, "cpu".as_bytes());
        m.is_memory = m.is_memory || same_bytes(s, "memory".as_bytes());
    } else if same_bytes(name, "method".as_bytes()) {
        m.method = if same_bytes(s, "hvc".as_bytes()) {
            PsciConduit::Hvc
        } else if same_bytes(s, "smc".as_bytes()) {
            PsciConduit::Smc
        } else {
            PsciConduit::Absent
        };
    }
    m
}

/// The node `n` with the property `name`, whose value is the `len` bytes at
/// `val`.
#[verifier::opaque]
pub open spec fn with_property(b: Seq<u8>, n: Node, name: Seq<u8>, val: usize, len: usize) -> Node {
    let text = text_at(b, val as int);
    let v = b.subrange(val as int, val + len);
    if name == "#address-cells".spec_bytes() && len == 4 {
        Node { child_addr_cells: be32(b, val as int) as u32, ..n }
    } else if name == "#size-cells".spec_bytes() && len == 4 {
        Node { child_size_cells: be32(b, val as int) as u32, ..n }
    } else if name == "reg".spec_bytes() {
        Node { reg_off: val, reg_len: len, ..n }
    } else if name == "ranges".spec_bytes() {
        Node { ranges_off: val, ranges_len: len, ..n }
    } else if name == "bus-range".spec_bytes() {
        Node { busrange_off: val, busrange_len: len, ..n }
    } else if name == "interrupts".spec_bytes() {
        Node { irq_off: val, irq_len: len, ..n }
    } else if name == "compatible".spec_bytes() {
        with_compatible(n, v)
    } else {
        with_text_property(n, name, text)
    }
}

/// Takes note of a property of an open node.
fn set_property(b: &[u8], n: &Node, name: &[u8], val: usize, len: usize) -> (r: Node)
    requires
        val + len <= b@.len(),
        n.within(b@.len() as int),
    ensures
        r == with_property(b@, *n, name@, val, len),
        r.within(b@.len() as int),
{
    reveal(with_property);
    assert(b@.len() == b.len());
    let mut m: Node = *n;
    if same_bytes(name, "#address-cells".as_bytes()) && len == 4 {
        m.child_addr_cells = read_be32(b, val);
    } else if same_bytes(name, "#size-cells".as_bytes()) && len == 4 {
        m.child_size_cells = read_be32(b, val);
    } else if same_bytes(name, "reg".as_bytes()) {
        m.reg_off = val;
        m.reg_len = len;
    } else if same_bytes(name, "ranges".as_bytes()) {
        m.ranges_off = val;
        m.ranges_len = len;
    } else if same_bytes(name, "bus-range".as_bytes()) {
        m.busrange_off = val;
        m.busrange_len = len;
    } else if same_bytes(name, "interrupts".as_bytes()) {
        m.irq_off = val;
        m.irq_len = len;
    } else if same_bytes(name, "compatible".as_bytes()) {
        m = set_compatible(n, vstd::slice::slice_subrange(b, val, val + len));
    } else {
        m = set_text_property(n, name, cstr(b, val));
    }
    m
}

/// The interrupt that a (type, number, flags) triple at `off` stands for; a
/// private interrupt counts from 16, a shared one from 32.
pub open spec fn intid(b: Seq<u8>, off: int) -> int {
    be32(b, off + 4) + if be32(b, off) == 1 { 16int } else { 32int }
}

/// Decodes an interrupt triple; `None` where the number is out of range.
fn gic_intid(b: &[u8], off: usize) -> (r: Option<u32>)
    requires
        off + 8 <= b@.len(),
    ensures
        r == if intid(b@, off as int) <= u32::MAX { Some(intid(b@, off as int) as u32) } else { None },
{
    assert(b@.len() == b.len());
    let kind: u32 = read_be32(b, off);
    let num: u32 = read_be32(b, off + 4);
    num.checked_add(if kind == 1 { 16 } else { 32 })
}

/// The RAM banks in the entries from `o` to `end`, after those in `ram`:
/// banks of size zero are left out, and so is what exceeds `MAX_RAM`.
pub open spec fn ram_banks(
    b: Seq<u8>,
    o: int,
    end: int,
    ac: int,
    sc: int,
    ram: Seq<(u64, u64)>,
) -> Seq<(u64, u64)>
    decreases end - o,
{
    let entry = 4 * (ac + sc);
    if entry <= 0 || o + entry > end || ram.len() >= MAX_RAM {
        ram
    } else {
        let base = cells_value(b, o, ac);
        let size = cells_value(b, o + 4 * ac, sc);
        let more = if size > 0 { ram.push((base as u64, size as u64)) } else { ram };
        ram_banks(b, o + entry, end, ac, sc, more)
    }
}

/// The windows of a host bridge from the `ranges` entries between `o` and
/// `end`; of each kind the last one counts.
pub open spec fn bridge_windows(b: Seq<u8>, o: int, end: int, ac: int, csc: int, host: PciHost) -> PciHost
    decreases end - o,
    when 0 <= ac && 0 <= csc
{
    let entry = 4 * (3 + ac + csc);
    if o + entry > end {
        host
    } else {
        let w = (
            cells_value(b, o + 12, ac) as u64,
            cells_value(b, o + 4, 2) as u64,
            cells_value(b, o + 12 + 4 * ac, csc) as u64,
        );
        let space = b[o] % 4;
        let next = if space == 1 {
            PciHost { io: w, ..host }
        } else if space == 2 {
            PciHost { mem32: w, ..host }
        } else {
            host
        };
        bridge_windows(b, o + entry, end, ac, csc, next)
    }
}

/// The host bridge that the node describes.
pub open spec fn bridge(b: Seq<u8>, n: Node, ac: int, sc: int) -> PciHost {
    let host = PciHost {
        ecam: cells_value(b, n.reg_off as int, ac) as u64,
        ecam_size: cells_value(b, n.reg_off + 4 * ac, sc) as u64,
        bus_start: if n.busrange_len >= 8 { b[n.busrange_off + 3] } else { 0 },
        bus_end: if n.busrange_len >= 8 { b[n.busrange_off + 7] } else { 255 },
        io: (0, 0, 0),
        mem32: (0, 0, 0),
    };
    if n.child_addr_cells == 3 {
        bridge_windows(
            b,
            n.ranges_off as int,
            n.ranges_off + n.ranges_len,
            ac,
            n.child_size_cells as int,
            host,
        )
    } else {
        host
    }
}

/// What is known of the machine once node `n` closes under `parent`; `None`
/// where a number in the node is out of range, or where its entries have no
/// size.
#[verifier::opaque]
pub open spec fn closed(b: Seq<u8>, m: Machine, n: Node, parent: Node) -> Option<Machine> {
    let ac = parent.child_addr_cells as int;
    let sc = parent.child_size_cells as int;
    let entry = 4 * (ac + sc);
    let reg = n.reg_off as int;
    if ac + sc > u32::MAX {
        None
    } else if !n.status_ok {
        Some(m)
    } else {
        let m = if n.is_psci && n.method != PsciConduit::Absent {
            Machine { psci: n.method, ..m }
        } else {
            m
        };
        if n.is_memory && n.reg_len >= entry {
            if entry == 0 && m.ram.len() < MAX_RAM {
                None
            } else {
                Some(Machine { ram: ram_banks(b, reg, reg + n.reg_len, ac, sc, m.ram), ..m })
            }
        } else if n.is_cpu && n.reg_len >= 4 * ac {
            if m.cpus.len() < MAX_CPUS {
                Some(Machine { cpus: m.cpus.push(cells_value(b, reg, ac) as u64), ..m })
            } else {
                Some(m)
            }
        } else if n.is_pcie && n.reg_len >= entry {
            if n.child_addr_cells + ac + n.child_size_cells > u32::MAX {
                None
            } else {
                Some(Machine { pci: Some(bridge(b, n, ac, sc)), ..m })
            }
        } else if n.is_gicv3 && n.reg_len >= 2 * entry {
            Some(
                Machine {
                    gic_version: 3,
                    gicd: cells_value(b, reg, ac) as u64,
                    gicr: cells_value(b, reg + entry, ac) as u64,
                    gicr_size: cells_value(b, reg + entry + 4 * ac, sc) as u64,
                    ..m
                },
            )
        } else if n.is_gic && n.reg_len >= 2 * entry {
            Some(
                Machine {
                    gic_version: 2,
                    gicd: cells_value(b, reg, ac) as u64,
                    gicc: cells_value(b, reg + entry, ac) as u64,
                    ..m
                },
            )
        } else if n.is_uart && n.reg_len >= entry {
            let m = Machine { uart: cells_value(b, reg, ac) as u64, ..m };
            if n.irq_len < 12 {
                Some(m)
            } else if intid(b, n.irq_off as int) > u32::MAX {
                None
            } else {
                Some(Machine { uart_irq: intid(b, n.irq_off as int) as u32, ..m })
            }
        } else if n.is_virtio && n.reg_len >= entry && m.virtio.len() < MAX_VIRTIO {
            Some(Machine { virtio: m.virtio.push(cells_value(b, reg, ac) as u64), ..m })
        } else if n.is_timer && n.irq_len >= 36 {
            if intid(b, n.irq_off + 24) > u32::MAX {
                None
            } else {
                Some(Machine { timer_irq: intid(b, n.irq_off + 24) as u32, ..m })
            }
        } else {
            Some(m)
        }
    }
}

/// Adds the RAM banks of a memory node.
fn close_memory(b: &[u8], info: &mut MachineInfo, n: &Node, ac: u32, sc: u32)
    requires
        old(info).wf(),
        n.within(b@.len() as int),
        0 < ac + sc <= u32::MAX,
    ensures
        final(info).wf(),
        final(info)@ == (Machine {
            ram: ram_banks(
                b@,
                n.reg_off as int,
                n.reg_off + n.reg_len,
                ac as int,
                sc as int,
                old(info)@.ram,
            ),
            ..old(info)@
        }),
{
    assert(b@.len() == b.len());
    let ghost m0 = info@;
    let end: usize = n.reg_off + n.reg_len;
    let entry: u64 = 4 * (ac as u64 + sc as u64);
    let mut o: usize = n.reg_off;
    let ghost all = ram_banks(b@, o as int, end as int, ac as int, sc as int, m0.ram);
    while (end - o) as u64 >= entry && info.ram_count < MAX_RAM
        invariant
            info.wf(),
            o <= end <= b@.len() <= usize::MAX,
            entry == 4 * (ac + sc),
            entry > 0,
            info@ == (Machine { ram: info@.ram, ..m0 }),
            all == ram_banks(b@, o as int, end as int, ac as int, sc as int, info@.ram),
        decreases end - o,
    {
        let base: u64 = read_cells(b, o, ac);
        let len: u64 = read_cells(b, o + 4 * (ac as usize), sc);
        let ghost before = info@.ram;
        if len > 0 {
            info.ram[info.ram_count] = (base, len);
            info.ram_count = info.ram_count + 1;
            assert(info@.ram =~= before.push((base, len)));
        }
        o += entry as usize;
    }
}

/// Reads the host bridge of a PCIe node.
fn close_pcie(b: &[u8], n: &Node, ac: u32, sc: u32) -> (r: PciHost)
    requires
        n.within(b@.len() as int),
        n.reg_len >= 4 * (ac + sc),
        n.child_addr_cells + ac + n.child_size_cells <= u32::MAX,
    ensures
        r == bridge(b@, *n, ac as int, sc as int),
{
    assert(b@.len() == b.len());
    let mut host = PciHost {
        ecam: read_cells(b, n.reg_off, ac),
        ecam_size: read_cells(b, n.reg_off + 4 * (ac as usize), sc),
        bus_start: 0,
        bus_end: 255,
        io: (0, 0, 0),
        mem32: (0, 0, 0),
    };
    if n.busrange_len >= 8 {
        host.bus_start = b[n.busrange_off + 3];
        host.bus_end = b[n.busrange_off + 7];
    }
    let csc: u32 = n.child_size_cells;
    if n.child_addr_cells == 3 {
        let entry: u64 = 4 * (3 + ac as u64 + csc as u64);
        let end: usize = n.ranges_off + n.ranges_len;
        let mut o: usize = n.ranges_off;
        let ghost all = bridge_windows(b@, o as int, end as int, ac as int, csc as int, host);
        while (end - o) as u64 >= entry
            invariant
                o <= end <= b@.len() <= usize::MAX,
                entry == 4 * (3 + ac + csc),
                all == bridge_windows(b@, o as int, end as int, ac as int, csc as int, host),
            decreases end - o,
        {
            let space: u8 = b[o] % 4;
            let pci: u64 = read_cells(b, o + 4, 2);
            let cpu: u64 = read_cells(b, o + 12, ac);
            let size: u64 = read_cells(b, o + 12 + 4 * (ac as usize), csc);
            if space == 1 {
                host.io = (cpu, pci, size);
            } else if space == 2 {
                host.mem32 = (cpu, pci, size);
            }
            o += entry as usize;
        }
    }
    host
}

/// Takes over what a closing node says of the machine. `false` where a number
/// in it is out of range or its entries have no size.
#[verifier::rlimit(60)]
fn close_node(b: &[u8], info: &mut MachineInfo, n: &Node, parent: &Node) -> (r: bool)
    requires
        old(info).wf(),
        n.within(b@.len() as int),
    ensures
        final(info).wf(),
        r == (closed(b@, old(info)@, *n, *parent) is Some),
        r ==> final(info)@ == closed(b@, old(info)@, *n, *parent)->0,
{
    reveal(closed);
    assert(b@.len() == b.len());
    let ac: u32 = parent.child_addr_cells;
    let sc: u32 = parent.child_size_cells;
    if ac as u64 + sc as u64 > u32::MAX as u64 {
        return false;
    }
    let entry: u64 = 4 * (ac as u64 + sc as u64);
    if !n.status_ok {
        return true;
    }
    let reg_len: u64 = n.reg_len as u64;
    if n.is_psci && n.method != PsciConduit::Absent {
        info.psci = n.method;
    }
    let ghost m = info@;
    if n.is_memory && reg_len >= entry {
        if entry == 0 {
            if info.ram_count < MAX_RAM {
                return false;
            }
        } else {
            close_memory(b, info, n, ac, sc);
        }
    } else if n.is_cpu && reg_len >= 4 * (ac as u64) {
        if info.cpu_count < MAX_CPUS {
            info.cpus[info.cpu_count] = read_cells(b, n.reg_off, ac);
            info.cpu_count = info.cpu_count + 1;
            assert(info@.cpus =~= m.cpus.push(cells_value(b@, n.reg_off as int, ac as int) as u64));
        }
    } else if n.is_pcie && reg_len >= entry {
        if n.child_addr_cells as u64 + ac as u64 + n.child_size_cells as u64 > u32::MAX as u64 {
            return false;
        }
        info.pci = Some(close_pcie(b, n, ac, sc));
    } else if n.is_gicv3 && reg_len >= 2 * entry {
        let second: usize = n.reg_off + entry as usize;
        info.gic_version = 3;
        info.gicd = read_cells(b, n.reg_off, ac);
        info.gicr = read_cells(b, second, ac);
        info.gicr_size = read_cells(b, second + 4 * (ac as usize), sc);
    } else if n.is_gic && reg_len >= 2 * entry {
        info.gic_version = 2;
        info.gicd = read_cells(b, n.reg_off, ac);
        info.gicc = read_cells(b, n.reg_off + entry as usize, ac);
    } else if n.is_uart && reg_len >= entry {
        info.uart = read_cells(b, n.reg_off, ac);
        if n.irq_len >= 12 {
            match gic_intid(b, n.irq_off) {
                Some(id) => {
                    info.uart_irq = id;
                },
                None => {
                    return false;
                },
            }
        }
    } else if n.is_virtio && reg_len >= entry && info.virtio_count < MAX_VIRTIO {
        info.virtio[info.virtio_count] = read_cells(b, n.reg_off, ac);
        info.virtio_count = info.virtio_count + 1;
        assert(info@.virtio =~= m.virtio.push(cells_value(b@, n.reg_off as int, ac as int) as u64));
    } else if n.is_timer && n.irq_len >= 36 {
        match gic_intid(b, n.irq_off + 24) {
            Some(id) => {
                info.timer_irq = id;
            },
            None => {
                return false;
            },
        }
    }
    true
}

/// `x` rounded up to a multiple of 4.
pub open spec fn word_aligned(x: int) -> int {
    (x + 3) - (x + 3) % 4
}

/// What the tokens from `p` on say of the machine, given the open nodes
/// (`open`, outermost first, and `deeper` ones below them that are skipped)
/// and what is known so far. `None` where the structure runs out of the blob
/// or a node cannot be read.
pub open spec fn walk(
    b: Seq<u8>,
    strings: int,
    p: int,
    open: Seq<Node>,
    deeper: nat,
    m: Machine,
) -> Option<Machine>
    decreases if p < b.len() { b.len() - p } else { 0 },
{
    if p < 0 || p + 4 > b.len() {
        None
    } else {
        let token = be32(b, p);
        if token == FDT_BEGIN_NODE {
            proof {
                lemma_text_end(b, p + 4);
            }
            let next = word_aligned(text_end(b, p + 4) + 1);
            if deeper == 0 && open.len() < DEPTH {
                walk(b, strings, next, open.push(node_named(text_at(b, p + 4))), 0, m)
            } else {
                walk(b, strings, next, open, deeper + 1, m)
            }
        } else if token == FDT_END_NODE {
            if deeper > 0 {
                walk(b, strings, p + 4, open, (deeper - 1) as nat, m)
            } else if open.len() == 0 {
                Some(m)
            } else {
                let rest = open.drop_last();
                let parent = if rest.len() > 0 { rest.last() } else { blank_node() };
                match closed(b, m, open.last(), parent) {
                    Some(m2) => walk(b, strings, p + 4, rest, 0, m2),
                    None => None,
                }
            }
        } else if token == FDT_PROP {
            if p + 12 > b.len() {
                None
            } else {
                let len = be32(b, p + 4);
                let name = strings + be32(b, p + 8);
                let val = p + 12;
                let next = word_aligned(val + len);
                if deeper > 0 || open.len() == 0 {
                    walk(b, strings, next, open, deeper, m)
                } else if name > b.len() || val + len > b.len() {
                    None
                } else {
                    let n = with_property(
                        b,
                        open.last(),
                        text_at(b, name),
                        val as usize,
                        len as usize,
                    );
                    walk(b, strings, next, open.update(open.len() - 1, n), 0, m)
                }
            }
        } else if token == FDT_NOP {
            walk(b, strings, p + 4, open, deeper, m)
        } else {
            Some(m)
        }
    }
}

/// What the device tree `b` says of the machine; `None` where it is malformed
/// beyond reading.
pub open spec fn machine_of(b: Seq<u8>) -> Option<Machine> {
    if b.len() < 16 {
        None
    } else {
        walk(b, be32(b, 12), be32(b, 8), Seq::empty(), 0, defaults())
    }
}

/// Parses the blob `b`, which is as long as its header says; `None` where its
/// structure runs out of the blob or a node cannot be read.
pub fn try_parse(b: &[u8]) -> (r: Option<MachineInfo>)
    requires
        8 <= b@.len(),
        b@.len() == be32(b@, 4),
    ensures
        match r {
            Some(info) => info.wf() && machine_of(b@) == Some(info@),
            None => machine_of(b@) is None,
        },
{
    let size: u64 = b.len() as u64;
    if size < 16 {
        return None;
    }
    let mut info = MachineInfo::qemu_virt_defaults();
    let off_strings: u64 = read_be32(b, 12) as u64;
    let mut p: u64 = read_be32(b, 8) as u64;
    let mut stack: [Node; DEPTH] = [Node::new(); 16];
    let mut depth: usize = 0;
    let mut deeper: u64 = 0;
    let ghost answer = machine_of(b@);
    assert(stack@.take(0) =~= Seq::<Node>::empty());
    loop
        invariant
            size == b@.len(),
            size <= u32::MAX,
            off_strings <= u32::MAX,
            p <= 2 * u32::MAX + 16,
            depth <= DEPTH,
            deeper <= p,
            deeper > 0 ==> depth == DEPTH,
            info.wf(),
            forall|i: int| 0 <= i < DEPTH ==> (#[trigger] stack@[i]).within(b@.len() as int),
            answer == machine_of(b@),
            answer == walk(
                b@,
                off_strings as int,
                p as int,
                stack@.take(depth as int),
                deeper as nat,
                info@,
            ),
        decreases if p < size { size - p } else { 0 },
    {
        let ghost open = stack@.take(depth as int);
        if p + 4 > size {
            return None;
        }
        let token: u32 = read_be32(b, p as usize);
        if token == FDT_BEGIN_NODE {
            let name = cstr(b, (p + 4) as usize);
            let end: u64 = p + 4 + name.len() as u64;
            let next: u64 = (end + 4) - (end + 4) % 4;
            if depth < DEPTH {
                let mut n = Node::new();
                n.is_memory = starts_with(name, "memory".as_bytes());
                n.is_cpu = starts_with(name, "cpu@".as_bytes());
                stack[depth] = n;
                depth += 1;
                assert(stack@.take(depth as int) =~= open.push(node_named(text_at(b@, p + 4))));
            } else {
                deeper += 1;
            }
            p = next;
        } else if token == FDT_END_NODE {
            p += 4;
            if deeper > 0 {
                deeper -= 1;
            } else {
                if depth == 0 {
                    return Some(info);
                }
                depth -= 1;
                let n: Node = stack[depth];
                let parent: Node = if depth > 0 { stack[depth - 1] } else { Node::new() };
                assert(n == open.last());
                assert(open.drop_last() =~= stack@.take(depth as int));
                if !close_node(b, &mut info, &n, &parent) {
                    return None;
                }
            }
        } else if token == FDT_PROP {
            if p + 12 > size {
                return None;
            }
            let len: u64 = read_be32(b, (p + 4) as usize) as u64;
            let name_at: u64 = off_strings + read_be32(b, (p + 8) as usize) as u64;
            let val: u64 = p + 12;
            if deeper == 0 && depth > 0 {
                if name_at > size || val + len > size {
                    return None;
                }
                let name = cstr(b, name_at as usize);
                let n: Node = stack[depth - 1];
                stack[depth - 1] = set_property(b, &n, name, val as usize, len as usize);
                assert(stack@.take(depth as int) =~= open.update(
                    depth - 1,
                    with_property(b@, open.last(), name@, val as usize, len as usize),
                ));
            }
            p = (val + len + 3) - (val + len + 3) % 4;
        } else if token == FDT_NOP {
            p += 4;
        } else {
            return Some(info);
        }
    }
}

/// Parses the blob `b`, which is as long as its header says and readable to
/// the end of its structure.
pub fn parse(b: &[u8]) -> (r: MachineInfo)
    requires
        8 <= b@.len(),
        b@.len() == be32(b@, 4),
        machine_of(b@) is Some,
    ensures
        r.wf(),
        r@ == machine_of(b@)->0,
{
    try_parse(b).unwrap()
}

/// A value of one cell is that cell, one of two is both with the high one first, and of a longer one
/// the last two cells count. A value without cells is 0.
pub proof fn law_cells(b: Seq<u8>, off: int, cells: int)
    ensures
        cells_value(b, off, 0) == 0,
        cells_value(b, off, 1) == be32(b, off),
        cells_value(b, off, 2) == be32(b, off) * 0x1_0000_0000 + be32(b, off + 4),
        cells > 2 ==> cells_value(b, off, cells) == cells_value(b, off + 4, cells - 1),
{
}

/// A text ends before the first zero, or where the bytes end.
pub proof fn law_text_ends_at_zero(s: Seq<u8>, off: int, i: int)
    requires
        0 <= off <= s.len(),
    ensures
        off <= i < text_end(s, off) ==> s[i] != 0,
        text_end(s, off) < s.len() ==> s[text_end(s, off)] == 0,
        off <= text_end(s, off) <= s.len(),
        text_at(s, off) == s.subrange(off, text_end(s, off)),
    decreases s.len() - off,
{
    if off < s.len() && s[off] != 0 {
        law_text_ends_at_zero(s, off + 1, i);
    }
}

/// A list of texts holds those that stand between its zeros: the texts of two lists joined by a zero
/// are those of the one and those of the other.
pub proof fn law_text_lists(a: Seq<u8>, b: Seq<u8>, want: Seq<u8>)
    ensures
        lists(a + seq![0u8] + b, want) <==> lists(a, want) || lists(b, want),
        (forall|i: int| 0 <= i < a.len() ==> #[trigger] a[i] != 0) ==> lists(a, a),
{
    reveal(lists);
    let n = a.len() as int;
    let j = a + seq![0u8] + b;
    assert forall|x: int, y: int| #[trigger] is_item(a, x, y) implies is_item(j, x, y) && j.subrange(
        x,
        y,
    ) == a.subrange(x, y) by {
        assert forall|k: int| x <= k < y implies j[k] != 0 by {
            assert(j[k] == a[k]);
        }
        if x > 0 {
            assert(j[x - 1] == a[x - 1]);
        }
        if y < n {
            assert(j[y] == a[y]);
        } else {
            assert(j[n] == 0);
        }
        assert(j.subrange(x, y) =~= a.subrange(x, y));
    }
    assert forall|x: int, y: int| #[trigger] is_item(b, x, y) implies is_item(j, x + n + 1, y + n + 1)
        && j.subrange(x + n + 1, y + n + 1) == b.subrange(x, y) by {
        assert forall|k: int| x + n + 1 <= k < y + n + 1 implies j[k] != 0 by {
            assert(j[k] == b[k - n - 1]);
        }
        if x > 0 {
            assert(j[x + n] == b[x - 1]);
        } else {
            assert(j[n] == 0);
        }
        if y < b.len() {
            assert(j[y + n + 1] == b[y]);
        }
        assert(j.subrange(x + n + 1, y + n + 1) =~= b.subrange(x, y));
    }
    assert forall|x: int, y: int| #[trigger] is_item(j, x, y) implies (is_item(a, x, y) && j.subrange(
        x,
        y,
    ) == a.subrange(x, y)) || (is_item(b, x - n - 1, y - n - 1) && j.subrange(x, y) == b.subrange(
        x - n - 1,
        y - n - 1,
    )) by {
        assert(j[n] == 0);
        assert(!(x <= n < y));
        if y <= n {
            assert forall|k: int| x <= k < y implies a[k] != 0 by {
                assert(j[k] == a[k]);
            }
            if x > 0 {
                assert(j[x - 1] == a[x - 1]);
            }
            if y < n {
                assert(j[y] == a[y]);
            }
            assert(j.subrange(x, y) =~= a.subrange(x, y));
        } else {
            assert forall|k: int| x - n - 1 <= k < y - n - 1 implies b[k] != 0 by {
                assert(j[k + n + 1] == b[k]);
            }
            if x > n + 1 {
                assert(j[x - 1] == b[x - n - 2]);
            }
            if y < j.len() {
                assert(j[y] == b[y - n - 1]);
            }
            assert(j.subrange(x, y) =~= b.subrange(x - n - 1, y - n - 1));
        }
    }
    if forall|i: int| 0 <= i < a.len() ==> #[trigger] a[i] != 0 {
        assert(is_item(a, 0, n));
        assert(a.subrange(0, n) =~= a);
    }
}

/// What a node is called makes it memory or a processor; otherwise it is blank: two address cells,
/// one size cell, in order, and nothing else.
pub proof fn law_new_node(name: Seq<u8>)
    ensures
        node_named(name).is_memory <==> "memory".spec_bytes().is_prefix_of(name),
        node_named(name).is_cpu <==> "cpu@".spec_bytes().is_prefix_of(name),
        node_named(name).child_addr_cells == 2,
        node_named(name).child_size_cells == 1,
        node_named(name).status_ok,
        node_named(name).method is Absent,
        node_named(name).reg_len == 0,
        node_named(name).ranges_len == 0,
        node_named(name).busrange_len == 0,
        node_named(name).irq_len == 0,
        !node_named(name).is_gic && !node_named(name).is_gicv3 && !node_named(name).is_pcie,
        !node_named(name).is_uart && !node_named(name).is_virtio && !node_named(name).is_timer,
        !node_named(name).is_psci,
{
}

/// A device is what its list of compatible ones names; a further list adds to it, takes nothing back
/// and leaves all else.
pub proof fn law_compatible_devices(n: Node, v: Seq<u8>)
    ensures
        ({
            let r = with_compatible(n, v);
            &&& r.is_gic <==> n.is_gic || lists(v, "arm,cortex-a15-gic".spec_bytes()) || lists(
                v,
                "arm,gic-400".spec_bytes(),
            )
            &&& r.is_gicv3 <==> n.is_gicv3 || lists(v, "arm,gic-v3".spec_bytes())
            &&& r.is_uart <==> n.is_uart || lists(v, "arm,pl011".spec_bytes())
            &&& r.is_virtio <==> n.is_virtio || lists(v, "virtio,mmio".spec_bytes())
            &&& r.is_timer <==> n.is_timer || lists(v, "arm,armv8-timer".spec_bytes())
            &&& r.is_psci <==> n.is_psci || lists(v, "arm,psci-1.0".spec_bytes()) || lists(
                v,
                "arm,psci-0.2".spec_bytes(),
            ) || lists(v, "arm,psci".spec_bytes())
            &&& r.is_pcie <==> n.is_pcie || lists(v, "pci-host-ecam-generic".spec_bytes())
            &&& r.is_cpu == n.is_cpu
            &&& r.is_memory == n.is_memory
            &&& r.status_ok == n.status_ok
            &&& r.method == n.method
            &&& r.child_addr_cells == n.child_addr_cells
            &&& r.child_size_cells == n.child_size_cells
            &&& r.reg_off == n.reg_off && r.reg_len == n.reg_len
        }),
{
    reveal(with_compatible);
}

/// Each property is noted where it belongs: counts of cells where they are four bytes long, and
/// registers, ranges, buses and interrupts as the place and length of the value.
pub proof fn law_properties_noted(b: Seq<u8>, n: Node, name: Seq<u8>, val: usize, len: usize)
    ensures
        ({
            let r = with_property(b, n, name, val, len);
            &&& name == "#address-cells".spec_bytes() && len == 4 ==> r == (Node {
                child_addr_cells: be32(b, val as int) as u32,
                ..n
            })
            &&& r.child_addr_cells != n.child_addr_cells ==> name == "#address-cells".spec_bytes() && len
                == 4
            &&& r.child_size_cells != n.child_size_cells ==> name == "#size-cells".spec_bytes() && len
                == 4 && r.child_size_cells == be32(b, val as int) as u32
            &&& r.reg_off != n.reg_off || r.reg_len != n.reg_len ==> name == "reg".spec_bytes()
                && r.reg_off == val && r.reg_len == len
            &&& r.ranges_off != n.ranges_off || r.ranges_len != n.ranges_len ==> name
                == "ranges".spec_bytes() && r.ranges_off == val && r.ranges_len == len
            &&& r.busrange_off != n.busrange_off || r.busrange_len != n.busrange_len ==> name
                == "bus-range".spec_bytes() && r.busrange_off == val && r.busrange_len == len
            &&& r.irq_off != n.irq_off || r.irq_len != n.irq_len ==> name == "interrupts".spec_bytes()
                && r.irq_off == val && r.irq_len == len
        }),
{
    reveal(with_property);
    reveal(with_compatible);
    reveal(with_text_property);
}

/// A text that is a property says what it is spelled: that the device is in order, that the node is a
/// processor or memory, and how the firmware is called.
pub proof fn law_texts_noted(n: Node, name: Seq<u8>, text: Seq<u8>)
    ensures
        ({
            let r = with_text_property(n, name, text);
            &&& name == "status".spec_bytes() ==> r.status_ok == (text == "okay".spec_bytes() || text
                == "ok".spec_bytes())
            &&& r.status_ok != n.status_ok ==> name == "status".spec_bytes()
            &&& r.is_cpu != n.is_cpu ==> name == "device_type".spec_bytes() && text == "cpu".spec_bytes()
            &&& r.is_memory != n.is_memory ==> name == "device_type".spec_bytes() && text
                == "memory".spec_bytes()
            &&& n.is_cpu ==> r.is_cpu
            &&& n.is_memory ==> r.is_memory
            &&& r.method != n.method ==> name == "method".spec_bytes() && (r.method is Hvc <==> text
                == "hvc".spec_bytes())
            &&& r.method != n.method && r.method is Smc ==> text == "smc".spec_bytes()
        }),
{
    reveal(with_text_property);
}

/// What the names of the properties are told apart by: their length and their first letter.
proof fn lemma_property_names()
    ensures
        "#address-cells".spec_bytes().len() == 14 && "#address-cells".spec_bytes()[0] == 35,
        "#size-cells".spec_bytes().len() == 11 && "#size-cells".spec_bytes()[0] == 35,
        "reg".spec_bytes().len() == 3 && "reg".spec_bytes()[0] == 114,
        "ranges".spec_bytes().len() == 6 && "ranges".spec_bytes()[0] == 114,
        "bus-range".spec_bytes().len() == 9 && "bus-range".spec_bytes()[0] == 98,
        "interrupts".spec_bytes().len() == 10 && "interrupts".spec_bytes()[0] == 105,
        "compatible".spec_bytes().len() == 10 && "compatible".spec_bytes()[0] == 99,
        "status".spec_bytes().len() == 6 && "status".spec_bytes()[0] == 115,
        "device_type".spec_bytes().len() == 11 && "device_type".spec_bytes()[0] == 100,
        "method".spec_bytes().len() == 6 && "method".spec_bytes()[0] == 109,
{
    assert("#address-cells".spec_bytes().len() == 14 && "#address-cells".spec_bytes()[0] == 35) by {
        reveal_strlit("#address-cells");
        vstd::string::is_ascii_spec_bytes("#address-cells");
    }
    assert("#size-cells".spec_bytes().len() == 11 && "#size-cells".spec_bytes()[0] == 35) by {
        reveal_strlit("#size-cells");
        vstd::string::is_ascii_spec_bytes("#size-cells");
    }
    assert("reg".spec_bytes().len() == 3 && "reg".spec_bytes()[0] == 114) by {
        reveal_strlit("reg");
        vstd::string::is_ascii_spec_bytes("reg");
    }
    assert("ranges".spec_bytes().len() == 6 && "ranges".spec_bytes()[0] == 114) by {
        reveal_strlit("ranges");
        vstd::string::is_ascii_spec_bytes("ranges");
    }
    assert("bus-range".spec_bytes().len() == 9 && "bus-range".spec_bytes()[0] == 98) by {
        reveal_strlit("bus-range");
        vstd::string::is_ascii_spec_bytes("bus-range");
    }
    assert("interrupts".spec_bytes().len() == 10 && "interrupts".spec_bytes()[0] == 105) by {
        reveal_strlit("interrupts");
        vstd::string::is_ascii_spec_bytes("interrupts");
    }
    assert("compatible".spec_bytes().len() == 10 && "compatible".spec_bytes()[0] == 99) by {
        reveal_strlit("compatible");
        vstd::string::is_ascii_spec_bytes("compatible");
    }
    assert("status".spec_bytes().len() == 6 && "status".spec_bytes()[0] == 115) by {
        reveal_strlit("status");
        vstd::string::is_ascii_spec_bytes("status");
    }
    assert("device_type".spec_bytes().len() == 11 && "device_type".spec_bytes()[0] == 100) by {
        reveal_strlit("device_type");
        vstd::string::is_ascii_spec_bytes("device_type");
    }
    assert("method".spec_bytes().len() == 6 && "method".spec_bytes()[0] == 109) by {
        reveal_strlit("method");
        vstd::string::is_ascii_spec_bytes("method");
    }
}

/// A property that is known is always noted: the counts of cells, the places of registers, ranges,
/// buses and interrupts, the compatible devices, and the texts that say what the node is.
pub proof fn law_known_properties(b: Seq<u8>, n: Node, name: Seq<u8>, val: usize, len: usize)
    ensures
        ({
            let r = with_property(b, n, name, val, len);
            let cells = be32(b, val as int) as u32;
            &&& name == "#address-cells".spec_bytes() && len == 4 ==> r == (Node {
                child_addr_cells: cells,
                ..n
            })
            &&& name == "#size-cells".spec_bytes() && len == 4 ==> r == (Node {
                child_size_cells: cells,
                ..n
            })
            &&& name == "reg".spec_bytes() ==> r == (Node { reg_off: val, reg_len: len, ..n })
            &&& name == "ranges".spec_bytes() ==> r == (Node { ranges_off: val, ranges_len: len, ..n })
            &&& name == "bus-range".spec_bytes() ==> r == (Node {
                busrange_off: val,
                busrange_len: len,
                ..n
            })
            &&& name == "interrupts".spec_bytes() ==> r == (Node { irq_off: val, irq_len: len, ..n })
            &&& name == "compatible".spec_bytes() ==> r == with_compatible(
                n,
                b.subrange(val as int, val + len),
            )
            &&& name == "status".spec_bytes() || name == "device_type".spec_bytes() || name
                == "method".spec_bytes() ==> r == with_text_property(n, name, text_at(b, val as int))
        }),
{
    reveal(with_property);
    lemma_property_names();
}

/// Each text is taken for what it says: "okay" or "ok" that a device is in order, "cpu" and "memory"
/// what a node is, "hvc" and "smc" how the firmware is called.
pub proof fn law_known_texts(n: Node, text: Seq<u8>)
    ensures
        with_text_property(n, "status".spec_bytes(), text) == (Node {
            status_ok: text == "okay".spec_bytes() || text == "ok".spec_bytes(),
            ..n
        }),
        ({
            let r = with_text_property(n, "device_type".spec_bytes(), text);
            &&& r.is_cpu <==> n.is_cpu || text == "cpu".spec_bytes()
            &&& r.is_memory <==> n.is_memory || text == "memory".spec_bytes()
        }),
        ({
            let r = with_text_property(n, "method".spec_bytes(), text);
            &&& r.method is Hvc <==> text == "hvc".spec_bytes()
            &&& text == "smc".spec_bytes() ==> r.method is Smc
            &&& text != "hvc".spec_bytes() && text != "smc".spec_bytes() ==> r.method is Absent
        }),
{
    reveal(with_text_property);
    lemma_property_names();
    assert("hvc".spec_bytes()[0] == 104 && "hvc".spec_bytes().len() == 3) by {
        reveal_strlit("hvc");
        vstd::string::is_ascii_spec_bytes("hvc");
    }
    assert("smc".spec_bytes()[0] == 115 && "smc".spec_bytes().len() == 3) by {
        reveal_strlit("smc");
        vstd::string::is_ascii_spec_bytes("smc");
    }
}

/// An interrupt's number counts from 16 where its first cell is 1, private to a processor, and from
/// 32 where it is shared.
pub proof fn law_interrupt_number(b: Seq<u8>, off: int)
    ensures
        be32(b, off) == 1 ==> intid(b, off) == 16 + be32(b, off + 4),
        be32(b, off) != 1 ==> intid(b, off) == 32 + be32(b, off + 4),
{
}

/// A bank of memory that follows the others is added at the end where it is not empty and fewer than
/// four are known, and changes nothing otherwise.
pub proof fn law_bank_is_added(b: Seq<u8>, o: int, n: nat, ac: int, sc: int, ram: Seq<(u64, u64)>)
    requires
        ac >= 0,
        sc >= 0,
        ac + sc > 0,
    ensures
        ({
            let entry = 4 * (ac + sc);
            let at = o + n * entry;
            let before = ram_banks(b, o, at, ac, sc, ram);
            let after = ram_banks(b, o, at + entry, ac, sc, ram);
            let size = cells_value(b, at + 4 * ac, sc);
            &&& n == 0 ==> before == ram
            &&& size > 0 && before.len() < 4 ==> after == before.push(
                (cells_value(b, at, ac) as u64, size as u64),
            )
            &&& !(size > 0 && before.len() < 4) ==> after == before
        }),
    decreases n,
{
    let entry = 4 * (ac + sc);
    let at = o + n * entry;
    reveal_with_fuel(ram_banks, 2);
    assert(n == 0 ==> n * entry == 0) by (nonlinear_arith);
    if n > 0 && ram.len() < 4 {
        let size = cells_value(b, o + 4 * ac, sc);
        let more = if size > 0 {
            ram.push((cells_value(b, o, ac) as u64, size as u64))
        } else {
            ram
        };
        assert(o + entry + (n - 1) * entry == at) by (nonlinear_arith)
            requires
                at == o + n * entry,
        ;
        assert(at >= o + entry) by (nonlinear_arith)
            requires
                at == o + n * entry,
                n >= 1,
                entry > 0,
        ;
        law_bank_is_added(b, o + entry, (n - 1) as nat, ac, sc, more);
    } else if n > 0 {
        assert(at >= o) by (nonlinear_arith)
            requires
                at == o + n * entry,
                n >= 1,
                entry > 0,
        ;
    }
}

/// Of the windows of a bridge the last of a kind holds: one whose first byte ends in the bits 01 is
/// for ports, one in 10 for memory of 32 bits, and any other is passed over. Its address on the
/// processor's side comes after three cells, that on the bus from the second, its size last.
pub proof fn law_last_window_holds(b: Seq<u8>, o: int, n: nat, ac: int, csc: int, host: PciHost)
    requires
        ac >= 0,
        csc >= 0,
    ensures
        ({
            let entry = 4 * (3 + ac + csc);
            let at = o + n * entry;
            let before = bridge_windows(b, o, at, ac, csc, host);
            let after = bridge_windows(b, o, at + entry, ac, csc, host);
            let w = (
                cells_value(b, at + 12, ac) as u64,
                (be32(b, at + 4) * 0x1_0000_0000 + be32(b, at + 8)) as u64,
                cells_value(b, at + 12 + 4 * ac, csc) as u64,
            );
            &&& n == 0 ==> before == host
            &&& b[at] % 4 == 1 ==> after == (PciHost { io: w, ..before })
            &&& b[at] % 4 == 2 ==> after == (PciHost { mem32: w, ..before })
            &&& b[at] % 4 != 1 && b[at] % 4 != 2 ==> after == before
        }),
    decreases n,
{
    let entry = 4 * (3 + ac + csc);
    let at = o + n * entry;
    reveal_with_fuel(bridge_windows, 2);
    assert(n == 0 ==> n * entry == 0) by (nonlinear_arith);
    if n > 0 {
        let w = (
            cells_value(b, o + 12, ac) as u64,
            cells_value(b, o + 4, 2) as u64,
            cells_value(b, o + 12 + 4 * ac, csc) as u64,
        );
        let next = if b[o] % 4 == 1 {
            PciHost { io: w, ..host }
        } else if b[o] % 4 == 2 {
            PciHost { mem32: w, ..host }
        } else {
            host
        };
        assert(o + entry + (n - 1) * entry == at) by (nonlinear_arith)
            requires
                at == o + n * entry,
        ;
        assert(at >= o + entry) by (nonlinear_arith)
            requires
                at == o + n * entry,
                n >= 1,
                entry > 0,
        ;
        law_last_window_holds(b, o + entry, (n - 1) as nat, ac, csc, next);
    }
}

/// A bridge's configuration space is its register, its buses are those of its range or else all, and
/// it has windows only where its addresses have three cells.
pub proof fn law_bridge(b: Seq<u8>, n: Node, ac: int, sc: int)
    requires
        ac >= 0,
        n.child_addr_cells != 3,
    ensures
        ({
            let h = bridge(b, n, ac, sc);
            &&& h.ecam == cells_value(b, n.reg_off as int, ac) as u64
            &&& h.ecam_size == cells_value(b, n.reg_off + 4 * ac, sc) as u64
            &&& n.busrange_len >= 8 ==> h.bus_start == b[n.busrange_off + 3] && h.bus_end
                == b[n.busrange_off + 7]
            &&& n.busrange_len < 8 ==> h.bus_start == 0 && h.bus_end == 255
            &&& h.io == (0u64, 0u64, 0u64)
            &&& h.mem32 == (0u64, 0u64, 0u64)
        }),
{
}

/// A device that is not in order adds nothing to the machine. One that is adds what it is, the first
/// of these that it is and has registers for, and changes nothing else.
pub proof fn law_node_is_added(b: Seq<u8>, m: Machine, n: Node, parent: Node)
    requires
        parent.child_addr_cells + parent.child_size_cells <= u32::MAX,
        !(n.is_psci && n.method != PsciConduit::Absent),
        parent.child_addr_cells + parent.child_size_cells > 0,
    ensures
        ({
            let ac = parent.child_addr_cells as int;
            let sc = parent.child_size_cells as int;
            let entry = 4 * (ac + sc);
            let reg = n.reg_off as int;
            let r = closed(b, m, n, parent);
            let one = n.reg_len >= entry;
            let two = n.reg_len >= 2 * entry;
            let memory = n.is_memory && one;
            let cpu = !memory && n.is_cpu && n.reg_len >= 4 * ac;
            let pcie = !memory && !cpu && n.is_pcie && one;
            let v3 = !memory && !cpu && !pcie && n.is_gicv3 && two;
            let v2 = !memory && !cpu && !pcie && !v3 && n.is_gic && two;
            let uart = !memory && !cpu && !pcie && !v3 && !v2 && n.is_uart && one;
            let virtio = !memory && !cpu && !pcie && !v3 && !v2 && !uart && n.is_virtio && one
                && m.virtio.len() < 32;
            let timer = !memory && !cpu && !pcie && !v3 && !v2 && !uart && !virtio && n.is_timer
                && n.irq_len >= 36;
            &&& !n.status_ok ==> r == Some(m)
            &&& n.status_ok && memory ==> r is Some && r->0.ram == ram_banks(
                b,
                reg,
                reg + n.reg_len,
                ac,
                sc,
                m.ram,
            ) && r->0.cpus == m.cpus && r->0.gicd == m.gicd && r->0.uart == m.uart && r->0.virtio
                == m.virtio
            &&& n.status_ok && cpu && m.cpus.len() < 64 ==> r == Some(
                Machine { cpus: m.cpus.push(cells_value(b, reg, ac) as u64), ..m },
            )
            &&& n.status_ok && cpu && m.cpus.len() >= 64 ==> r == Some(m)
            &&& n.status_ok && pcie && n.child_addr_cells + ac + n.child_size_cells <= u32::MAX ==> r
                == Some(Machine { pci: Some(bridge(b, n, ac, sc)), ..m })
            &&& n.status_ok && v3 ==> r is Some && r->0.gic_version == 3 && r->0.gicd == cells_value(
                b,
                reg,
                ac,
            ) as u64 && r->0.gicr == cells_value(b, reg + entry, ac) as u64 && r->0.gicr_size
                == cells_value(b, reg + entry + 4 * ac, sc) as u64 && r->0.gicc == m.gicc
            &&& n.status_ok && v2 ==> r is Some && r->0.gic_version == 2 && r->0.gicd == cells_value(
                b,
                reg,
                ac,
            ) as u64 && r->0.gicc == cells_value(b, reg + entry, ac) as u64 && r->0.gicr == m.gicr
            &&& n.status_ok && uart && n.irq_len < 12 ==> r == Some(
                Machine { uart: cells_value(b, reg, ac) as u64, ..m },
            )
            &&& n.status_ok && uart && n.irq_len >= 12 && intid(b, n.irq_off as int) <= u32::MAX ==> r
                == Some(
                Machine {
                    uart: cells_value(b, reg, ac) as u64,
                    uart_irq: intid(b, n.irq_off as int) as u32,
                    ..m
                },
            )
            &&& n.status_ok && virtio ==> r == Some(
                Machine { virtio: m.virtio.push(cells_value(b, reg, ac) as u64), ..m },
            )
            &&& n.status_ok && timer && intid(b, n.irq_off + 24) <= u32::MAX ==> r == Some(
                Machine { timer_irq: intid(b, n.irq_off + 24) as u32, ..m },
            )
            &&& n.status_ok && !memory && !cpu && !pcie && !v3 && !v2 && !uart && !virtio && !timer
                ==> r == Some(m)
        }),
{
    reveal(closed);
}

/// A node that says how the firmware is called makes that the machine's way of calling it.
pub proof fn law_firmware_is_called(b: Seq<u8>, m: Machine, n: Node, parent: Node)
    requires
        n.status_ok,
        n.is_psci,
        n.method != PsciConduit::Absent,
        closed(b, m, n, parent) is Some,
    ensures
        closed(b, m, n, parent)->0.psci == n.method,
{
    reveal(closed);
}

/// Parts of the tree begin at multiples of four.
pub proof fn law_parts_are_aligned(x: int)
    ensures
        word_aligned(x) % 4 == 0,
        x <= word_aligned(x) < x + 4,
{
}

/// The tokens have the numbers of the format, and a machine that says nothing has QEMU's addresses.
pub proof fn law_tokens_and_defaults()
    ensures
        FDT_MAGIC == 0xd00d_feed,
        FDT_BEGIN_NODE == 1,
        FDT_END_NODE == 2,
        FDT_PROP == 3,
        FDT_NOP == 4,
        FDT_END == 9,
        defaults().ram.len() == 0,
        defaults().cpus.len() == 0,
        defaults().virtio.len() == 0,
        defaults().psci is Absent,
        defaults().pci is None,
        defaults().gic_version == 2,
        defaults().gicd == 0x0800_0000,
        defaults().gicc == 0x0801_0000,
        defaults().gicr == 0 && defaults().gicr_size == 0,
        defaults().uart == 0x0900_0000,
        defaults().uart_irq == 33,
        defaults().timer_irq == 27,
{
}

/// The tree is walked token by token: 1 opens a node with its name, 3 gives the node opened last a
/// property, 2 closes it and adds it to the machine, 4 is passed over, and any other token, or a
/// close without a node, ends the walk with the machine as it is. Nodes that lie more than sixteen
/// deep are only counted.
pub proof fn law_tokens_are_followed(
    b: Seq<u8>,
    strings: int,
    p: int,
    open: Seq<Node>,
    deeper: nat,
    m: Machine,
)
    requires
        0 <= p,
        p + 12 <= b.len(),
    ensures
        ({
            let t = be32(b, p);
            let r = walk(b, strings, p, open, deeper, m);
            let named = word_aligned(text_end(b, p + 4) + 1);
            let len = be32(b, p + 4);
            &&& t == 1 && deeper == 0 && open.len() < 16 ==> r == walk(
                b,
                strings,
                named,
                open.push(node_named(text_at(b, p + 4))),
                0,
                m,
            )
            &&& t == 1 && (deeper > 0 || open.len() >= 16) ==> r == walk(
                b,
                strings,
                named,
                open,
                deeper + 1,
                m,
            )
            &&& t == 2 && deeper > 0 ==> r == walk(b, strings, p + 4, open, (deeper - 1) as nat, m)
            &&& t == 2 && deeper == 0 && open.len() == 0 ==> r == Some(m)
            &&& t == 2 && deeper == 0 && open.len() > 0 ==> {
                let parent = if open.len() > 1 { open[open.len() - 2] } else { blank_node() };
                let c = closed(b, m, open.last(), parent);
                &&& c is None ==> r is None
                &&& c is Some ==> r == walk(b, strings, p + 4, open.drop_last(), 0, c->0)
            }
            &&& t == 3 && deeper == 0 && open.len() > 0 && strings + be32(b, p + 8) <= b.len() && p + 12
                + len <= b.len() ==> r == walk(
                b,
                strings,
                word_aligned(p + 12 + len),
                open.update(
                    open.len() - 1,
                    with_property(
                        b,
                        open.last(),
                        text_at(b, strings + be32(b, p + 8)),
                        (p + 12) as usize,
                        len as usize,
                    ),
                ),
                0,
                m,
            )
            &&& t == 3 && (deeper > 0 || open.len() == 0) ==> r == walk(
                b,
                strings,
                word_aligned(p + 12 + len),
                open,
                deeper,
                m,
            )
            &&& t == 4 ==> r == walk(b, strings, p + 4, open, deeper, m)
            &&& t == 0 || t > 4 ==> r == Some(m)
        }),
{
}

} // verus!
