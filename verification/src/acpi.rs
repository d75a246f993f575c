//! ACPI tables: just enough to bring up SMP.
//!
//! RSDP, then RSDT or XSDT, then the MADT, which tells the Local APIC base
//! address, every processor's Local APIC ID, the I/O APIC and the interrupt
//! source overrides.

use vstd::prelude::*;
use vstd::string::StringSliceAdditionalSpecFns;
use crate::bytes::{le16, le32, le64, read_le16, read_le32, read_le64, same_bytes};

verus! {

/// An ISA interrupt that is routed elsewhere.
#[derive(Debug, Clone, Copy, PartialEq, Eq, Structural)]
pub struct IrqOverride {
    pub source_irq: u8,
    pub gsi: u32,
    /// Bits 0 and 1 polarity, bits 2 and 3 trigger mode.
    pub flags: u16,
}

/// Everything we learned from the MADT.
pub struct MadtInfo {
    /// Physical address of the Local APIC registers.
    pub lapic_base: u64,
    /// Local APIC IDs of all enabled processors.
    pub cpu_apic_ids: Vec<u32>,
    /// Physical address of the first I/O APIC, if any.
    pub ioapic_base: Option<u64>,
    /// First interrupt of that I/O APIC.
    pub ioapic_gsi_base: u32,
    /// ISA interrupts that are routed elsewhere.
    pub overrides: Vec<IrqOverride>,
}

/// What a `MadtInfo` says.
#[verifier::ext_equal]
pub struct Madt {
    pub lapic_base: u64,
    pub cpu_apic_ids: Seq<u32>,
    pub ioapic_base: Option<u64>,
    pub ioapic_gsi_base: u32,
    pub overrides: Seq<IrqOverride>,
}

impl View for MadtInfo {
    type V = Madt;

    open spec fn view(&self) -> Madt {
        Madt {
            lapic_base: self.lapic_base,
            cpu_apic_ids: self.cpu_apic_ids@,
            ioapic_base: self.ioapic_base,
            ioapic_gsi_base: self.ioapic_gsi_base,
            overrides: self.overrides@,
        }
    }
}

/// Where an ISA interrupt is routed by the overrides from the `i`th on: by
/// the first that names it, else to itself.
pub open spec fn routed(overrides: Seq<IrqOverride>, irq: u8, i: int) -> (u32, u16)
    decreases overrides.len() - i,
{
    if i < 0 || i >= overrides.len() {
        (irq as u32, 0)
    } else if overrides[i].source_irq == irq {
        (overrides[i].gsi, overrides[i].flags)
    } else {
        routed(overrides, irq, i + 1)
    }
}

impl MadtInfo {
    /// Resolves an ISA interrupt to its global interrupt and flags, honoring
    /// overrides.
    pub fn isa_irq_to_gsi(&self, irq: u8) -> (r: (u32, u16))
        ensures
            r == routed(self@.overrides, irq, 0),
    {
        let mut i: usize = 0;
        while i < self.overrides.len()
            invariant
                i <= self.overrides@.len(),
                routed(self@.overrides, irq, 0) == routed(self@.overrides, irq, i as int),
            decreases self.overrides@.len() - i,
        {
            let o = self.overrides[i];
            if o.source_irq == irq {
                return (o.gsi, o.flags);
            }
            i += 1;
        }
        (irq as u32, 0)
    }
}

/// The MADT that was parsed, if any.
pub fn madt(info: &Option<MadtInfo>) -> (r: Option<&MadtInfo>)
    ensures
        match r {
            Some(m) => *info == Some(*m),
            None => *info is None,
        },
{
    info.as_ref()
}

/// Bytes of the header that all system tables have.
pub const SDT_HEADER_LEN: usize = 36;

/// The table of tables that an RSDP names.
#[derive(Debug, Clone, Copy, PartialEq, Eq, Structural)]
pub struct RootTable {
    pub addr: u64,
    /// Bytes of an entry: 8 in an XSDT, 4 in an RSDT.
    pub entry_size: usize,
}

/// The table of tables that an RSDP names: the XSDT where there is one.
pub open spec fn root_table_of(rsdp: Seq<u8>) -> Option<RootTable> {
    if rsdp.take(8) != "RSD PTR ".spec_bytes() {
        None
    } else if rsdp[15] >= 2 && le64(rsdp, 24) != 0 {
        Some(RootTable { addr: le64(rsdp, 24) as u64, entry_size: 8 })
    } else {
        Some(RootTable { addr: le32(rsdp, 16) as u64, entry_size: 4 })
    }
}

/// Finds the table of tables; `None` where the RSDP has a bad signature.
pub fn init(rsdp: &[u8]) -> (r: Option<RootTable>)
    requires
        rsdp@.len() == 36,
    ensures
        r == root_table_of(rsdp@),
{
    let sig = vstd::slice::slice_subrange(rsdp, 0, 8);
    assert(sig@ =~= rsdp@.take(8));
    if !same_bytes(sig, "RSD PTR ".as_bytes()) {
        return None;
    }
    let revision: u8 = rsdp[15];
    let rsdt_addr: u64 = read_le32(rsdp, 16) as u64;
    let xsdt_addr: u64 = if revision >= 2 { read_le64(rsdp, 24) } else { 0 };
    if xsdt_addr != 0 {
        Some(RootTable { addr: xsdt_addr, entry_size: 8 })
    } else {
        Some(RootTable { addr: rsdt_addr, entry_size: 4 })
    }
}

/// Number of entries of a table of tables.
pub open spec fn entry_count(len: int, entry_size: int) -> int {
    if len < SDT_HEADER_LEN {
        0
    } else {
        (len - SDT_HEADER_LEN) / entry_size
    }
}

/// Entry `i` of a table of tables.
pub open spec fn table_entry(table: Seq<u8>, entry_size: int, i: int) -> int {
    if entry_size == 8 {
        le64(table, SDT_HEADER_LEN + 8 * i)
    } else {
        le32(table, SDT_HEADER_LEN + 4 * i)
    }
}

/// The tables that a table of tables names from entry `i` on; empty entries
/// are left out.
pub open spec fn tables_from(table: Seq<u8>, entry_size: int, i: int) -> Seq<u64>
    decreases entry_count(table.len() as int, entry_size) - i,
{
    if i < 0 || i >= entry_count(table.len() as int, entry_size) {
        Seq::empty()
    } else {
        let a = table_entry(table, entry_size, i);
        let rest = tables_from(table, entry_size, i + 1);
        if a != 0 {
            seq![a as u64] + rest
        } else {
            rest
        }
    }
}

/// The length of a table, by its header.
pub fn sdt_length(header: &[u8]) -> (r: u32)
    requires
        header@.len() == SDT_HEADER_LEN,
    ensures
        r == le32(header@, 4),
{
    read_le32(header, 4)
}

/// Lists the tables that an RSDT (`entry_size` 4) or XSDT (8) names.
pub fn listed_tables(table: &[u8], entry_size: usize) -> (r: Vec<u64>)
    requires
        entry_size == 4 || entry_size == 8,
    ensures
        r@ == tables_from(table@, entry_size as int, 0),
{
    let mut out: Vec<u64> = Vec::new();
    let len: usize = table.len();
    if len < SDT_HEADER_LEN {
        return out;
    }
    let entries: usize = (len - SDT_HEADER_LEN) / entry_size;
    proof {
        vstd::arithmetic::div_mod::lemma_fundamental_div_mod(
            len - SDT_HEADER_LEN,
            entry_size as int,
        );
    }
    let mut i: usize = 0;
    assert(out@ + tables_from(table@, entry_size as int, 0) =~= tables_from(
        table@,
        entry_size as int,
        0,
    ));
    while i < entries
        invariant
            i <= entries,
            entry_size == 4 || entry_size == 8,
            len == table@.len(),
            len >= SDT_HEADER_LEN,
            entries == entry_count(len as int, entry_size as int),
            entry_size == 4 ==> entries * 4 <= len - SDT_HEADER_LEN,
            entry_size == 8 ==> entries * 8 <= len - SDT_HEADER_LEN,
            out@ + tables_from(table@, entry_size as int, i as int) == tables_from(
                table@,
                entry_size as int,
                0,
            ),
        decreases entries - i,
    {
        let a: u64 = if entry_size == 8 {
            read_le64(table, SDT_HEADER_LEN + i * 8)
        } else {
            read_le32(table, SDT_HEADER_LEN + i * 4) as u64
        };
        let ghost rest = tables_from(table@, entry_size as int, i as int + 1);
        if a != 0 {
            assert(out@.push(a) + rest =~= out@ + (seq![a] + rest));
            out.push(a);
        }
        i += 1;
    }
    assert(out@ + Seq::<u64>::empty() =~= out@);
    out
}

/// The first of the tables from the `i`th on whose signature is `sig`.
pub open spec fn first_with(tables: Seq<u64>, sigs: Seq<[u8; 4]>, sig: Seq<u8>, i: int) -> Option<u64>
    decreases tables.len() - i,
{
    if i < 0 || i >= tables.len() {
        None
    } else if sigs[i]@ == sig {
        Some(tables[i])
    } else {
        first_with(tables, sigs, sig, i + 1)
    }
}

/// Finds a table by its signature, given the signatures of the listed
/// tables.
pub fn find_table(tables: &[u64], sigs: &[[u8; 4]], sig: &[u8]) -> (r: Option<u64>)
    requires
        tables@.len() == sigs@.len(),
    ensures
        r == first_with(tables@, sigs@, sig@, 0),
{
    let mut i: usize = 0;
    while i < tables.len()
        invariant
            i <= tables@.len(),
            tables@.len() == sigs@.len(),
            first_with(tables@, sigs@, sig@, 0) == first_with(tables@, sigs@, sig@, i as int),
        decreases tables@.len() - i,
    {
        if same_bytes(sigs[i].as_slice(), sig) {
            return Some(tables[i]);
        }
        i += 1;
    }
    None
}

/// Bytes that the fields of an entry of this type take.
pub open spec fn fields_len(kind: u8) -> int {
    if kind == 0 {
        8
    } else if kind == 1 {
        12
    } else if kind == 2 {
        10
    } else if kind == 5 {
        12
    } else if kind == 9 {
        12
    } else {
        2
    }
}

/// The processor flags say that it is enabled or can be brought online.
pub open spec fn usable_cpu(flags: int) -> bool {
    flags % 4 != 0
}

/// What is known once the entry at `off` was read.
pub open spec fn madt_entry(t: Seq<u8>, off: int, m: Madt) -> Madt {
    let kind = t[off];
    if kind == 0 && usable_cpu(le32(t, off + 4)) {
        Madt { cpu_apic_ids: m.cpu_apic_ids.push(t[off + 3] as u32), ..m }
    } else if kind == 1 && m.ioapic_base is None {
        Madt {
            ioapic_base: Some(le32(t, off + 4) as u64),
            ioapic_gsi_base: le32(t, off + 8) as u32,
            ..m
        }
    } else if kind == 2 {
        Madt {
            overrides: m.overrides.push(
                IrqOverride {
                    source_irq: t[off + 3],
                    gsi: le32(t, off + 4) as u32,
                    flags: le16(t, off + 8) as u16,
                },
            ),
            ..m
        }
    } else if kind == 5 {
        Madt { lapic_base: le64(t, off + 4) as u64, ..m }
    } else if kind == 9 && usable_cpu(le32(t, off + 8)) {
        Madt { cpu_apic_ids: m.cpu_apic_ids.push(le32(t, off + 4) as u32), ..m }
    } else {
        m
    }
}

/// What the entries from `off` on add to what is known; an entry that is too
/// short or runs out of the table ends the list. `None` where the fields of
/// an entry run out of the table.
pub open spec fn madt_from(t: Seq<u8>, off: int, m: Madt) -> Option<Madt>
    decreases t.len() - off,
{
    if off < 0 || off + 2 > t.len() {
        Some(m)
    } else {
        let n = t[off + 1] as int;
        if n < 2 || off + n > t.len() {
            Some(m)
        } else if off + fields_len(t[off]) > t.len() {
            None
        } else {
            madt_from(t, off + n, madt_entry(t, off, m))
        }
    }
}

/// What a MADT says; `None` where it is malformed beyond reading.
pub open spec fn madt_of(t: Seq<u8>) -> Option<Madt> {
    if t.len() < 40 {
        None
    } else {
        madt_from(
            t,
            44,
            Madt {
                lapic_base: le32(t, 36) as u64,
                cpu_apic_ids: Seq::empty(),
                ioapic_base: None,
                ioapic_gsi_base: 0,
                overrides: Seq::empty(),
            },
        )
    }
}

/// Takes over one entry.
fn read_entry(t: &[u8], off: usize, info: &mut MadtInfo)
    requires
        off + fields_len(t@[off as int]) <= t@.len(),
    ensures
        final(info)@ == madt_entry(t@, off as int, old(info)@),
{
    assert(t@.len() == t.len());
    let kind: u8 = t[off];
    if kind == 0 {
        let id: u32 = t[off + 3] as u32;
        if read_le32(t, off + 4) % 4 != 0 {
            info.cpu_apic_ids.push(id);
        }
    } else if kind == 1 {
        if info.ioapic_base.is_none() {
            info.ioapic_base = Some(read_le32(t, off + 4) as u64);
            info.ioapic_gsi_base = read_le32(t, off + 8);
        }
    } else if kind == 2 {
        info.overrides.push(
            IrqOverride {
                source_irq: t[off + 3],
                gsi: read_le32(t, off + 4),
                flags: read_le16(t, off + 8),
            },
        );
    } else if kind == 5 {
        info.lapic_base = read_le64(t, off + 4);
    } else if kind == 9 {
        let id: u32 = read_le32(t, off + 4);
        if read_le32(t, off + 8) % 4 != 0 {
            info.cpu_apic_ids.push(id);
        }
    }
}

/// Parses the MADT; `None` where fields run out of the table.
pub fn try_parse_madt(t: &[u8]) -> (r: Option<MadtInfo>)
    ensures
        match r {
            Some(info) => madt_of(t@) == Some(info@),
            None => madt_of(t@) is None,
        },
{
    let len: usize = t.len();
    if len < 40 {
        return None;
    }
    let mut info = MadtInfo {
        lapic_base: read_le32(t, 36) as u64,
        cpu_apic_ids: Vec::new(),
        ioapic_base: None,
        ioapic_gsi_base: 0,
        overrides: Vec::new(),
    };
    let mut off: usize = 44;
    while off <= len && len - off >= 2
        invariant
            len == t@.len(),
            len >= 40,
            madt_of(t@) == madt_from(t@, off as int, info@),
        decreases if off <= len { len - off } else { 0 },
    {
        let kind: u8 = t[off];
        let n: usize = t[off + 1] as usize;
        if n < 2 || n > len - off {
            return Some(info);
        }
        let need: usize = if kind == 0 {
            8
        } else if kind == 1 || kind == 5 || kind == 9 {
            12
        } else if kind == 2 {
            10
        } else {
            2
        };
        if need > len - off {
            return None;
        }
        read_entry(t, off, &mut info);
        off += n;
    }
    Some(info)
}

/// Parses the MADT, whose fields all lie inside the table. Also says whether
/// it lists a processor.
pub fn parse_madt(t: &[u8]) -> (r: (MadtInfo, bool))
    requires
        madt_of(t@) is Some,
    ensures
        r.0@ == madt_of(t@)->0,
        r.1 == (r.0@.cpu_apic_ids.len() > 0),
{
    let info = try_parse_madt(t).unwrap();
    let found = info.cpu_apic_ids.len() > 0;
    (info, found)
}

/// The root pointer is known by its first eight bytes; from revision 2 on, at
/// byte 15, it names a table of addresses of eight bytes at byte 24, unless
/// that is zero, and else one of addresses of four bytes at byte 16.
pub proof fn law_root_pointer(rsdp: Seq<u8>)
    requires
        rsdp.len() == 36,
    ensures
        root_table_of(rsdp) is Some <==> rsdp[0] == 0x52 && rsdp[1] == 0x53 && rsdp[2] == 0x44 && rsdp[3]
            == 0x20 && rsdp[4] == 0x50 && rsdp[5] == 0x54 && rsdp[6] == 0x52 && rsdp[7] == 0x20,
        root_table_of(rsdp) is Some && rsdp[15] >= 2 && le64(rsdp, 24) != 0 ==> root_table_of(rsdp)->0.addr
            == le64(rsdp, 24) && root_table_of(rsdp)->0.entry_size == 8,
        root_table_of(rsdp) is Some && (rsdp[15] < 2 || le64(rsdp, 24) == 0) ==> root_table_of(rsdp)->0.addr
            == le32(rsdp, 16) && root_table_of(rsdp)->0.entry_size == 4,
{
    let sig = "RSD PTR ".spec_bytes();
    reveal_strlit("RSD PTR ");
    vstd::string::is_ascii_spec_bytes("RSD PTR ");
    let s = rsdp.take(8);
    assert(sig.len() == 8);
    assert(sig[0] == 0x52 && sig[1] == 0x53 && sig[2] == 0x44 && sig[3] == 0x20);
    assert(sig[4] == 0x50 && sig[5] == 0x54 && sig[6] == 0x52 && sig[7] == 0x20);
    assert(s[0] == rsdp[0] && s[1] == rsdp[1] && s[2] == rsdp[2] && s[3] == rsdp[3]);
    assert(s[4] == rsdp[4] && s[5] == rsdp[5] && s[6] == rsdp[6] && s[7] == rsdp[7]);
    if rsdp[0] == 0x52 && rsdp[1] == 0x53 && rsdp[2] == 0x44 && rsdp[3] == 0x20 && rsdp[4] == 0x50
        && rsdp[5] == 0x54 && rsdp[6] == 0x52 && rsdp[7] == 0x20 {
        assert(s =~= sig);
    }
}

/// A table of tables names them behind its header of 36 bytes: those that are
/// not zero are listed.
pub proof fn law_tables_are_listed(table: Seq<u8>, entry_size: int, from: int, i: int)
    requires
        entry_size == 4 || entry_size == 8,
        0 <= from <= i,
        36 + entry_size * (i + 1) <= table.len(),
    ensures
        ({
            let a = if entry_size == 8 {
                le64(table, 36 + 8 * i)
            } else {
                le32(table, 36 + 4 * i)
            };
            a != 0 ==> tables_from(table, entry_size, from).contains(a as u64)
        }),
        !tables_from(table, entry_size, from).contains(0),
    decreases i - from,
{
    let n = entry_count(table.len() as int, entry_size);
    assert(i < n);
    let all = tables_from(table, entry_size, from);
    let rest = tables_from(table, entry_size, from + 1);
    lemma_no_zero(table, entry_size, from);
    let a = table_entry(table, entry_size, from);
    if from < i {
        law_tables_are_listed(table, entry_size, from + 1, i);
        let b = table_entry(table, entry_size, i);
        if b != 0 {
            let j = choose|j: int| 0 <= j < rest.len() && rest[j] == b as u64;
            if a != 0 {
                assert(all[j + 1] == b as u64);
            } else {
                assert(all[j] == b as u64);
            }
        }
    } else if a != 0 {
        assert(all[0] == a as u64);
    }
}

proof fn lemma_no_zero(table: Seq<u8>, entry_size: int, from: int)
    requires
        entry_size == 4 || entry_size == 8,
        0 <= from,
    ensures
        !tables_from(table, entry_size, from).contains(0),
    decreases entry_count(table.len() as int, entry_size) - from,
{
    if from < entry_count(table.len() as int, entry_size) {
        lemma_no_zero(table, entry_size, from + 1);
        let a = table_entry(table, entry_size, from);
        let rest = tables_from(table, entry_size, from + 1);
        let all = tables_from(table, entry_size, from);
        assert(0 <= a <= u64::MAX);
        if all.contains(0) {
            let j = choose|j: int| 0 <= j < all.len() && all[j] == 0;
            if a != 0 {
                assert(j > 0 && rest[j - 1] == 0);
            } else {
                assert(rest[j] == 0);
            }
        }
    }
}

/// A table is found by its signature: the first that has it.
pub proof fn law_table_is_found_by_signature(tables: Seq<u64>, sigs: Seq<[u8; 4]>, sig: Seq<u8>, i: int)
    requires
        0 <= i,
    ensures
        match first_with(tables, sigs, sig, i) {
            Some(a) => exists|k: int|
                i <= k < tables.len() && tables[k] == a && (#[trigger] sigs[k])@ == sig && forall|j: int|
                    i <= j < k ==> (#[trigger] sigs[j])@ != sig,
            None => forall|k: int| i <= k < tables.len() ==> (#[trigger] sigs[k])@ != sig,
        },
    decreases tables.len() - i,
{
    if i < tables.len() {
        if sigs[i]@ != sig {
            law_table_is_found_by_signature(tables, sigs, sig, i + 1);
        } else {
            assert(sigs[i]@ == sig);
        }
    }
}

/// What the entries of the interrupt table say. Types 0 and 9 name processors,
/// by the byte at 3 or the word at 4, and count if they are enabled or can be
/// brought online. Type 1 names the I/O controller, of which the first counts.
/// Type 2 names another input for an ISA interrupt. Type 5 moves the local
/// controllers. All others are passed over.
pub proof fn law_interrupt_table_entries(t: Seq<u8>, off: int, m: Madt)
    requires
        0 <= off,
        off + 12 <= t.len(),
    ensures
        ({
            let r = madt_entry(t, off, m);
            let kind = t[off];
            &&& kind == 0 ==> r.cpu_apic_ids == if t[off + 4] % 4 != 0 {
                m.cpu_apic_ids.push(t[off + 3] as u32)
            } else {
                m.cpu_apic_ids
            }
            &&& kind == 9 ==> r.cpu_apic_ids == if t[off + 8] % 4 != 0 {
                m.cpu_apic_ids.push(le32(t, off + 4) as u32)
            } else {
                m.cpu_apic_ids
            }
            &&& kind != 0 && kind != 9 ==> r.cpu_apic_ids == m.cpu_apic_ids
            &&& kind == 1 && m.ioapic_base is None ==> r.ioapic_base == Some(le32(t, off + 4) as u64)
                && r.ioapic_gsi_base == le32(t, off + 8)
            &&& kind != 1 || m.ioapic_base is Some ==> r.ioapic_base == m.ioapic_base && r.ioapic_gsi_base
                == m.ioapic_gsi_base
            &&& kind == 2 ==> {
                &&& r.overrides.len() == m.overrides.len() + 1
                &&& r.overrides.last().source_irq == t[off + 3]
                &&& r.overrides.last().gsi == le32(t, off + 4)
                &&& r.overrides.last().flags == t[off + 8] + 0x100 * t[off + 9]
                &&& r.overrides.drop_last() == m.overrides
            }
            &&& kind != 2 ==> r.overrides == m.overrides
            &&& kind == 5 ==> r.lapic_base == le64(t, off + 4)
            &&& kind != 5 ==> r.lapic_base == m.lapic_base
        }),
{
    assert(m.overrides.push(
        IrqOverride {
            source_irq: t[off + 3],
            gsi: le32(t, off + 4) as u32,
            flags: le16(t, off + 8) as u16,
        },
    ).drop_last() =~= m.overrides);
}

/// The interrupt table is read entry by entry from byte 44 on, each as long as
/// its second byte says; the local controllers lie where byte 36 says. What is
/// cut short ends it.
pub proof fn law_interrupt_table_is_read_in_order(t: Seq<u8>, off: int, m: Madt)
    requires
        0 <= off,
    ensures
        t.len() < 40 <==> madt_of(t) is None && t.len() < 40,
        40 <= t.len() < 46 ==> madt_of(t) is Some && madt_of(t)->0.lapic_base == le32(t, 36)
            && madt_of(t)->0.cpu_apic_ids.len() == 0,
        t.len() >= 44 ==> exists|first: Madt|
            first.lapic_base == le32(t, 36) && first.cpu_apic_ids.len() == 0 && first.ioapic_base is None
                && first.overrides.len() == 0 && madt_of(t) == #[trigger] madt_from(t, 44, first),
        off + 2 > t.len() ==> madt_from(t, off, m) == Some(m),
        off + 2 <= t.len() && (t[off + 1] < 2 || off + t[off + 1] > t.len()) ==> madt_from(t, off, m)
            == Some(m),
        off + 12 <= t.len() && 2 <= t[off + 1] && off + t[off + 1] <= t.len() ==> madt_from(t, off, m)
            == madt_from(t, off + t[off + 1], madt_entry(t, off, m)),
{
    let first = Madt {
        lapic_base: le32(t, 36) as u64,
        cpu_apic_ids: Seq::empty(),
        ioapic_base: None,
        ioapic_gsi_base: 0,
        overrides: Seq::empty(),
    };
    if t.len() >= 40 {
        assert(madt_of(t) == madt_from(t, 44, first));
    }
}

/// An ISA interrupt goes to the input that the first override for it names,
/// and without one to the input of its own number.
pub proof fn law_isa_interrupts(overrides: Seq<IrqOverride>, irq: u8, i: int)
    requires
        0 <= i,
    ensures
        match routed(overrides, irq, i) {
            (gsi, flags) => {
                ||| exists|k: int|
                    i <= k < overrides.len() && (#[trigger] overrides[k]).source_irq == irq && gsi
                        == overrides[k].gsi && flags == overrides[k].flags && forall|j: int|
                        i <= j < k ==> (#[trigger] overrides[j]).source_irq != irq
                ||| gsi == irq && flags == 0 && forall|k: int|
                    i <= k < overrides.len() ==> (#[trigger] overrides[k]).source_irq != irq
            },
        },
    decreases overrides.len() - i,
{
    if i < overrides.len() {
        if overrides[i].source_irq != irq {
            law_isa_interrupts(overrides, irq, i + 1);
        } else {
            assert(overrides[i].source_irq == irq);
        }
    }
}

/// A table without room for a header and an entry names none; any other names the entry it starts
/// with, unless that is zero, and then what it names from the next one on.
pub proof fn law_tables_are_listed_in_order(table: Seq<u8>, entry_size: int, from: int)
    requires
        entry_size == 4 || entry_size == 8,
        0 <= from,
    ensures
        36 + entry_size * (from + 1) > table.len() ==> tables_from(table, entry_size, from).len() == 0,
        36 + entry_size * (from + 1) <= table.len() ==> {
            let a = if entry_size == 8 {
                le64(table, 36 + 8 * from)
            } else {
                le32(table, 36 + 4 * from)
            };
            let rest = tables_from(table, entry_size, from + 1);
            tables_from(table, entry_size, from) == if a == 0 { rest } else { seq![a as u64] + rest }
        },
{
    let n = entry_count(table.len() as int, entry_size);
    if entry_size == 8 {
        assert(from < n <==> 36 + 8 * (from + 1) <= table.len());
    } else {
        assert(from < n <==> 36 + 4 * (from + 1) <= table.len());
    }
}

} // verus!
