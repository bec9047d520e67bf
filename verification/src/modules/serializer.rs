//! Object files: reading a module back from its bytes.
use vstd::prelude::*;

use crate::modules::export::{no_exports, Exports};
use crate::modules::{Module, ModuleError};
use crate::runtime::net::Net;
use crate::runtime::translation::empty_net;
use crate::text::{concat, owned, string_of};
use crate::strmap::StrMap;
use crate::modules::export::{entry_view, listing_view, ExportEntry};
use crate::ast::debug_text::type_debug;
use vstd::std_specs::hash::DefaultHasherAdditionalSpecFns;
use crate::ast::terms::Visibility;
use crate::ast::types::SpecType;
use crate::runtime::net::{NetView, Wire};
use crate::runtime::net::node::{Agent, AgentView, NodeView};
use crate::traits::registry::Implementation;
use vstd::bytes::{spec_u32_to_le_bytes, spec_u64_to_le_bytes, u32_to_le_bytes, u64_to_le_bytes};
use vstd::utf8::encode_utf8;
use crate::ast::types::Type;
use std::collections::hash_map::DefaultHasher;
use std::hash::Hasher;

verus! {

/// The decoded contents of an object file.
#[derive(Debug)]
pub struct SerializedModule {
    pub module_name: String,
    pub type_section: Vec<TypeEntry>,
    pub trait_section: Vec<TraitEntry>,
    pub net_section: NetSection,
    pub export_table: StrMap<ExportLocation>,
    pub debug_section: DebugSection,
    pub content_hash: [u8; 32],
}

/// A type of the type section.
#[derive(Debug, Clone)]
pub struct TypeEntry {
    pub name: String,
    pub kind: TypeKind,
    pub constructors: Vec<Constructor>,
    pub multiplicity: String,
}

/// Whether a type's definition is visible to importers.
#[derive(Debug, Clone, Copy, PartialEq, Eq, Structural)]
pub enum TypeKind {
    Opaque,
    Transparent,
}

/// A constructor of a type, with the types of its fields.
#[derive(Debug, Clone)]
pub struct Constructor {
    pub name: String,
    pub fields: Vec<String>,
}

/// A trait of the trait section, its methods and its implementations.
#[derive(Debug, Clone)]
pub struct TraitEntry {
    pub name: String,
    pub methods: Vec<MethodSignature>,
    pub impls: Vec<ImplBlock>,
}

/// A method of a trait and its type.
#[derive(Debug, Clone)]
pub struct MethodSignature {
    pub name: String,
    pub ty: String,
}

/// An implementation of a trait for a type.
#[derive(Debug, Clone)]
pub struct ImplBlock {
    pub for_type: String,
    pub methods: Vec<MethodDef>,
}

/// A method of an implementation and where its body starts.
#[derive(Debug, Clone)]
pub struct MethodDef {
    pub name: String,
    pub body_offset: u32,
}

/// The nodes and wires of the net section.
#[derive(Debug, Clone)]
pub struct NetSection {
    pub nodes: Vec<NodeData>,
    pub wires: Vec<WireData>,
}

/// A node: its agent's code, its number of ports and, for a constructor,
/// its name.
#[derive(Debug, Clone)]
pub struct NodeData {
    pub agent: u8,
    pub num_ports: u8,
    pub name: Option<String>,
}

/// A wire between two ports.
#[derive(Debug, Clone, Copy)]
pub struct WireData {
    pub source_node: u32,
    pub source_port: u8,
    pub target_node: u32,
    pub target_port: u8,
}

/// Where an export stands: its section and offset.
#[derive(Debug, Clone)]
pub struct ExportLocation {
    pub section: String,
    pub offset: u32,
}

/// Source positions and original names, by name.
#[derive(Debug)]
pub struct DebugSection {
    pub source_positions: StrMap<(u32, u32)>,
    pub original_names: StrMap<String>,
}

/// An empty debug section.
impl Default for DebugSection {
    fn default() -> (r: DebugSection)
        ensures
            r.source_positions.spec_map() == Map::<Seq<char>, (u32, u32)>::empty(),
            r.original_names.spec_map() == Map::<Seq<char>, String>::empty(),
    {
        DebugSection { source_positions: StrMap::new(), original_names: StrMap::new() }
    }
}

/// The first bytes of an object file: `LC10`.
pub open spec fn magic() -> Seq<u8> {
    seq![0x4cu8, 0x43u8, 0x31u8, 0x30u8]
}

/// A lowercase hexadecimal digit.
pub open spec fn hex_digit(d: int) -> char {
    if d < 10 { (('0' as int) + d) as char } else { (('a' as int) + d - 10) as char }
}

/// A byte in lowercase hexadecimal without leading zeros, as `{:x}` writes it.
pub open spec fn hex_text(b: u8) -> Seq<char> {
    if b < 16 { seq![hex_digit(b as int)] } else { seq![hex_digit(b as int / 16), hex_digit(b as int % 16)] }
}

/// Bytes as `{:x?}` writes a slice of them: in brackets, separated by commas.
pub open spec fn hex_list(bs: Seq<u8>) -> Seq<char> {
    "["@ + hex_items(bs) + "]"@
}

pub open spec fn hex_items(bs: Seq<u8>) -> Seq<char>
    decreases bs.len(),
{
    if bs.len() == 0 {
        Seq::empty()
    } else if bs.len() == 1 {
        hex_text(bs[0])
    } else {
        hex_items(bs.drop_last()) + ", "@ + hex_text(bs.last())
    }
}

fn hex_char(d: u8) -> (c: char)
    requires
        d < 16,
    ensures
        c == hex_digit(d as int),
{
    if d < 10 {
        (('0' as u8) + d) as char
    } else {
        (('a' as u8) + d - 10) as char
    }
}

fn byte_hex(b: u8) -> (r: Vec<char>)
    ensures
        r@ == hex_text(b),
{
    let mut v: Vec<char> = Vec::new();
    if b < 16 {
        v.push(hex_char(b));
    } else {
        v.push(hex_char(b / 16));
        v.push(hex_char(b % 16));
    }
    v
}

/// The text of `{:x?}` for a slice of bytes.
fn hex_list_text(bs: &[u8]) -> (r: String)
    ensures
        r@ == hex_list(bs@),
{
    let mut v: Vec<char> = Vec::new();
    v.push('[');
    let mut i: usize = 0;
    while i < bs.len()
        invariant
            i <= bs.len(),
            v@ == seq!['['] + hex_items(bs@.take(i as int)),
        decreases bs.len() - i,
    {
        proof {
            assert(bs@.take(i + 1).drop_last() =~= bs@.take(i as int));
            assert(bs@.take(i + 1).last() == bs@[i as int]);
        }
        if i > 0 {
            v.push(',');
            v.push(' ');
        }
        let h = byte_hex(bs[i]);
        let mut k: usize = 0;
        let ghost before = v@;
        while k < h.len()
            invariant
                k <= h.len(),
                v@ == before + h@.take(k as int),
            decreases h.len() - k,
        {
            v.push(h[k]);
            assert(h@.take(k + 1) =~= h@.take(k as int).push(h@[k as int]));
            k += 1;
        }
        assert(h@.take(h.len() as int) =~= h@);
        proof {
            reveal_strlit(", ");
            let t = bs@.take(i + 1);
            if i == 0 {
                assert(bs@.take(1) =~= seq![bs@[0]]);
                assert(hex_items(t) == hex_text(bs@[0]));
                assert(hex_items(bs@.take(0)) =~= Seq::<char>::empty());
            } else {
                assert(hex_items(t) == hex_items(t.drop_last()) + ", "@ + hex_text(t.last()));
            }
            assert(v@ =~= seq!['['] + hex_items(bs@.take(i + 1)));
        }
        i += 1;
    }
    v.push(']');
    assert(bs@.take(bs.len() as int) =~= bs@);
    proof {
        reveal_strlit("[");
        reveal_strlit("]");
    }
    assert(v@ =~= hex_list(bs@));
    string_of(v.as_slice())
}

/// Reads a module from an object file. Only the first four bytes are read:
/// a file shorter than that, or that does not begin with `LC10`, is refused;
/// otherwise the module is named `deserialized` and is empty.
pub fn deserialize_module(data: &[u8]) -> (r: Result<Module, ModuleError>)
    ensures
        data@.len() < 4 ==> (r matches Err(e) && e.message@ == "Invalid object file: too short"@),
        data@.len() >= 4 && data@.take(4) != magic() ==> (r matches Err(e) && e.message@ == "Invalid magic number: "@
            + hex_list(data@.take(4))),
        data@.len() >= 4 && data@.take(4) == magic() ==> (r matches Ok(m) && m.name@ == "deserialized"@ && m.exports@
            == no_exports() && m.impls@.len() == 0 && m.net@ == empty_net() && m.net.wf()),
{
    if data.len() < 4 {
        return Err(ModuleError { message: owned("Invalid object file: too short") });
    }
    let mut head_v: Vec<u8> = Vec::new();
    head_v.push(data[0]);
    head_v.push(data[1]);
    head_v.push(data[2]);
    head_v.push(data[3]);
    assert(head_v@ =~= data@.take(4));
    if !(data[0] == 0x4c && data[1] == 0x43 && data[2] == 0x31 && data[3] == 0x30) {
        proof {
            if data@.take(4) == magic() {
                assert(data@.take(4)[0] == 0x4c);
                assert(data@.take(4)[1] == 0x43);
                assert(data@.take(4)[2] == 0x31);
                assert(data@.take(4)[3] == 0x30);
            }
        }
        let shown = hex_list_text(head_v.as_slice());
        return Err(ModuleError { message: concat("Invalid magic number: ", shown.as_str()) });
    }
    assert(data@.take(4) =~= magic());
    let net = Net::new();
    assert(net@ == empty_net());
    Ok(Module { name: owned("deserialized"), exports: Exports::new(), impls: Vec::new(), net })
}


/// The length of a section, as `usize::to_le_bytes` writes it: eight bytes
/// on a 64-bit machine, four on a 32-bit one.
pub open spec fn len_bytes(n: usize) -> Seq<u8> {
    if usize::BITS == 64 {
        spec_u64_to_le_bytes(n as u64)
    } else {
        spec_u32_to_le_bytes(n as u32)
    }
}

/// A name: the number of its UTF-8 bytes as 32 bits little-endian (cut to
/// its low 32 bits), then the bytes.
pub open spec fn name_bytes(s: Seq<char>) -> Seq<u8> {
    spec_u32_to_le_bytes(encode_utf8(s).len() as u32) + encode_utf8(s)
}

/// `1` for true, `0` for false.
pub open spec fn flag_byte(b: bool) -> u8 {
    if b {
        1
    } else {
        0
    }
}

/// A number as a byte, or `0` when it does not fit.
pub open spec fn capped_u8(n: nat) -> u8 {
    if n <= u8::MAX {
        n as u8
    } else {
        0
    }
}

/// A number as 32 bits, or `0` when it does not fit.
pub open spec fn capped_u32(n: nat) -> u32 {
    if n <= u32::MAX {
        n as u32
    } else {
        0
    }
}

/// Each exported type: its name, then whether it is transparent.
pub open spec fn type_items(ts: Seq<(Seq<char>, bool)>) -> Seq<u8>
    decreases ts.len(),
{
    if ts.len() == 0 {
        seq![]
    } else {
        type_items(ts.drop_last()) + name_bytes(ts.last().0).push(flag_byte(ts.last().1))
    }
}

/// The type section: the number of types, then each type.
pub open spec fn types_section(ts: Seq<(Seq<char>, bool)>) -> Seq<u8> {
    spec_u32_to_le_bytes(ts.len() as u32) + type_items(ts)
}

/// Each name of a list.
pub open spec fn name_items(ns: Seq<(Seq<char>, bool)>) -> Seq<u8>
    decreases ns.len(),
{
    if ns.len() == 0 {
        seq![]
    } else {
        name_items(ns.drop_last()) + name_bytes(ns.last().0)
    }
}

/// The export section: the number of exported values and their names,
/// then the exported types as in the type section.
pub open spec fn exports_section(vs: Seq<(Seq<char>, bool)>, ts: Seq<(Seq<char>, bool)>) -> Seq<u8> {
    spec_u32_to_le_bytes(vs.len() as u32) + name_items(vs) + types_section(ts)
}

/// The trait's name and the number of methods of an implementation.
pub open spec fn impl_summary(i: Implementation) -> (Seq<char>, nat) {
    (i.trait_name.0@, i.methods.spec_map().len())
}

/// Each implementation: its trait's name, then its number of methods.
pub open spec fn impl_items(is: Seq<(Seq<char>, nat)>) -> Seq<u8>
    decreases is.len(),
{
    if is.len() == 0 {
        seq![]
    } else {
        impl_items(is.drop_last()) + name_bytes(is.last().0) + spec_u32_to_le_bytes(is.last().1 as u32)
    }
}

/// The trait section: the number of implementations, then each one.
pub open spec fn traits_section(is: Seq<(Seq<char>, nat)>) -> Seq<u8> {
    spec_u32_to_le_bytes(is.len() as u32) + impl_items(is)
}

/// An agent: its code, and for a constructor its name.
pub open spec fn agent_bytes(a: AgentView) -> Seq<u8> {
    match a {
        AgentView::Lambda => seq![0u8],
        AgentView::App => seq![1u8],
        AgentView::Delta => seq![2u8],
        AgentView::Epsilon => seq![3u8],
        AgentView::Constructor(n) => seq![4u8] + name_bytes(n),
        AgentView::Prim(_) => seq![5u8],
        AgentView::PrimVal(_) => seq![6u8],
        AgentView::PrimIO(_) => seq![7u8],
        AgentView::IOToken => seq![8u8],
    }
}

/// Each node: its agent, then its number of ports.
pub open spec fn node_items(ns: Seq<NodeView>) -> Seq<u8>
    decreases ns.len(),
{
    if ns.len() == 0 {
        seq![]
    } else {
        node_items(ns.drop_last()) + agent_bytes(ns.last().agent).push(capped_u8(ns.last().ports.len()))
    }
}

/// A wire: each end's node (cut to its low 32 bits) and port.
pub open spec fn wire_bytes(w: Wire) -> Seq<u8> {
    spec_u32_to_le_bytes(w.source.node.0 as u32).push(capped_u8(w.source.index.0 as nat)) + spec_u32_to_le_bytes(
        w.target.node.0 as u32,
    ).push(capped_u8(w.target.index.0 as nat))
}

/// Each wire of a list.
pub open spec fn wire_items(ws: Seq<Wire>) -> Seq<u8>
    decreases ws.len(),
{
    if ws.len() == 0 {
        seq![]
    } else {
        wire_items(ws.drop_last()) + wire_bytes(ws.last())
    }
}

/// The net section: the number of nodes and each node, then the number of
/// wires and each wire.
pub open spec fn net_section(v: NetView) -> Seq<u8> {
    spec_u32_to_le_bytes(capped_u32(v.nodes.len())) + node_items(v.nodes) + spec_u32_to_le_bytes(
        capped_u32(v.wires.len()),
    ) + wire_items(v.wires)
}

/// A section behind its length.
pub open spec fn with_length(sec: Seq<u8>) -> Seq<u8> {
    len_bytes(sec.len() as usize) + sec
}

/// An object file: `LC10`, then the type, trait, net, export and debug
/// sections, each behind its length. The debug section is the module's name.
pub open spec fn module_bytes(
    name: Seq<char>,
    vs: Seq<(Seq<char>, bool)>,
    ts: Seq<(Seq<char>, bool)>,
    is: Seq<(Seq<char>, nat)>,
    net: NetView,
) -> Seq<u8> {
    magic() + with_length(types_section(ts)) + with_length(traits_section(is)) + with_length(net_section(net))
        + with_length(exports_section(vs, ts)) + with_length(name_bytes(name))
}

/// `r` lists the public entries of `m`, each once, with whether each is
/// transparent.
pub open spec fn lists_public(r: Seq<(Seq<char>, bool)>, m: Map<Seq<char>, (SpecType, Visibility, bool)>) -> bool {
    &&& forall|i: int|
        0 <= i < r.len() ==> m.dom().contains((#[trigger] r[i]).0) && m[r[i].0].1 == Visibility::Public && r[i].1
            == m[r[i].0].2
    &&& forall|k: Seq<char>| #[trigger] m.dom().contains(k) && m[k].1 == Visibility::Public ==> exists|i: int| 0 <= i < r.len() && r[i].0 == k
    &&& forall|i: int, j: int| 0 <= i < j < r.len() ==> r[i].0 != r[j].0
}

/// The names of a list of exports, each with whether it is transparent.
pub open spec fn export_list(es: Seq<(String, ExportEntry)>) -> Seq<(Seq<char>, bool)> {
    es.map_values(|e: (String, ExportEntry)| (e.0@, e.1.transparent))
}

/// Appends bytes.
fn push_all(buf: &mut Vec<u8>, more: &[u8])
    ensures
        final(buf)@ == old(buf)@ + more@,
{
    let mut i: usize = 0;
    while i < more.len()
        invariant
            i <= more.len(),
            buf@ == old(buf)@ + more@.take(i as int),
        decreases more.len() - i,
    {
        buf.push(more[i]);
        assert(more@.take(i + 1) =~= more@.take(i as int).push(more@[i as int]));
        i += 1;
    }
    assert(more@.take(more.len() as int) =~= more@);
}

/// Appends 32 bits little-endian.
fn push_u32(buf: &mut Vec<u8>, x: u32)
    ensures
        final(buf)@ == old(buf)@ + spec_u32_to_le_bytes(x),
{
    let b = u32_to_le_bytes(x);
    push_all(buf, b.as_slice());
}

/// Appends a name as [`name_bytes`] writes it.
fn push_name(buf: &mut Vec<u8>, s: &str)
    ensures
        final(buf)@ == old(buf)@ + name_bytes(s@),
{
    let b = s.as_bytes();
    push_u32(buf, b.len() as u32);
    push_all(buf, b);
    assert(buf@ =~= old(buf)@ + name_bytes(s@));
}

/// Appends a section behind its length.
fn push_section(buf: &mut Vec<u8>, sec: &Vec<u8>)
    ensures
        final(buf)@ == old(buf)@ + with_length(sec@),
{
    let n = sec.len();
    if usize::BITS == 64 {
        let b = u64_to_le_bytes(n as u64);
        push_all(buf, b.as_slice());
    } else {
        let b = u32_to_le_bytes(n as u32);
        push_all(buf, b.as_slice());
    }
    push_all(buf, sec.as_slice());
    assert(buf@ =~= old(buf)@ + with_length(sec@));
}

/// The type section of a list of exported types.
fn types_to_bytes(ts: &Vec<(String, ExportEntry)>) -> (r: Vec<u8>)
    ensures
        r@ == types_section(export_list(ts@)),
{
    let ghost l = export_list(ts@);
    let mut buf: Vec<u8> = Vec::new();
    push_u32(&mut buf, ts.len() as u32);
    let ghost head = buf@;
    let mut i: usize = 0;
    while i < ts.len()
        invariant
            i <= ts.len(),
            l == export_list(ts@),
            head == spec_u32_to_le_bytes(ts.len() as u32),
            buf@ == head + type_items(l.take(i as int)),
        decreases ts.len() - i,
    {
        let ghost before = buf@;
        push_name(&mut buf, ts[i].0.as_str());
        buf.push(if ts[i].1.transparent { 1u8 } else { 0u8 });
        proof {
            assert(l.take(i + 1).drop_last() =~= l.take(i as int));
            assert(l.take(i + 1).last() == l[i as int]);
            assert(buf@ =~= head + type_items(l.take(i + 1)));
        }
        i += 1;
    }
    assert(l.take(ts.len() as int) =~= l);
    buf
}

/// The export section of lists of exported values and types.
fn exports_to_bytes(vs: &Vec<(String, ExportEntry)>, ts: &Vec<(String, ExportEntry)>) -> (r: Vec<u8>)
    ensures
        r@ == exports_section(export_list(vs@), export_list(ts@)),
{
    let ghost l = export_list(vs@);
    let mut buf: Vec<u8> = Vec::new();
    push_u32(&mut buf, vs.len() as u32);
    let ghost head = buf@;
    let mut i: usize = 0;
    while i < vs.len()
        invariant
            i <= vs.len(),
            l == export_list(vs@),
            head == spec_u32_to_le_bytes(vs.len() as u32),
            buf@ == head + name_items(l.take(i as int)),
        decreases vs.len() - i,
    {
        push_name(&mut buf, vs[i].0.as_str());
        proof {
            assert(l.take(i + 1).drop_last() =~= l.take(i as int));
            assert(l.take(i + 1).last() == l[i as int]);
            assert(buf@ =~= head + name_items(l.take(i + 1)));
        }
        i += 1;
    }
    assert(l.take(vs.len() as int) =~= l);
    let t = types_to_bytes(ts);
    push_all(&mut buf, t.as_slice());
    buf
}

/// The trait section of a list of implementations.
fn traits_to_bytes(impls: &Vec<Implementation>) -> (r: Vec<u8>)
    requires
        forall|i: int| 0 <= i < impls.len() ==> (#[trigger] impls@[i]).wf(),
    ensures
        r@ == traits_section(impls@.map_values(|i: Implementation| impl_summary(i))),
{
    let ghost l = impls@.map_values(|i: Implementation| impl_summary(i));
    let mut buf: Vec<u8> = Vec::new();
    push_u32(&mut buf, impls.len() as u32);
    let ghost head = buf@;
    let mut i: usize = 0;
    while i < impls.len()
        invariant
            i <= impls.len(),
            l == impls@.map_values(|i: Implementation| impl_summary(i)),
            forall|k: int| 0 <= k < impls.len() ==> (#[trigger] impls@[k]).wf(),
            head == spec_u32_to_le_bytes(impls.len() as u32),
            buf@ == head + impl_items(l.take(i as int)),
        decreases impls.len() - i,
    {
        let imp = &impls[i];
        push_name(&mut buf, imp.trait_name.0.as_str());
        let n = imp.methods.len();
        push_u32(&mut buf, n as u32);
        proof {
            assert(l.take(i + 1).drop_last() =~= l.take(i as int));
            assert(l.take(i + 1).last() == l[i as int]);
            assert(buf@ =~= head + impl_items(l.take(i + 1)));
        }
        i += 1;
    }
    assert(l.take(impls.len() as int) =~= l);
    buf
}

/// A number as a byte, or `0` when it does not fit.
fn byte_or_zero(n: usize) -> (r: u8)
    ensures
        r == capped_u8(n as nat),
{
    if n <= 255 {
        n as u8
    } else {
        0
    }
}

/// A number as 32 bits, or `0` when it does not fit.
fn u32_or_zero(n: usize) -> (r: u32)
    ensures
        r == capped_u32(n as nat),
{
    if n <= 0xffff_ffff {
        n as u32
    } else {
        0
    }
}

/// The net section of a net.
fn net_to_bytes(net: &Net) -> (r: Vec<u8>)
    ensures
        r@ == net_section(net@),
{
    let nodes = net.nodes();
    let wires = net.wires();
    let ghost nv = net@.nodes;
    let mut buf: Vec<u8> = Vec::new();
    push_u32(&mut buf, u32_or_zero(nodes.len()));
    let ghost head = buf@;
    let mut i: usize = 0;
    while i < nodes.len()
        invariant
            i <= nodes.len(),
            nv == nodes@.map_values(|n: crate::runtime::net::node::Node| n@),
            buf@ == head + node_items(nv.take(i as int)),
        decreases nodes.len() - i,
    {
        let node = &nodes[i];
        match &node.agent {
            Agent::Lambda => buf.push(0u8),
            Agent::App => buf.push(1u8),
            Agent::Delta => buf.push(2u8),
            Agent::Epsilon => buf.push(3u8),
            Agent::Constructor(name) => {
                buf.push(4u8);
                push_name(&mut buf, name.as_str());
            },
            Agent::Prim(_) => buf.push(5u8),
            Agent::PrimVal(_) => buf.push(6u8),
            Agent::PrimIO(_) => buf.push(7u8),
            Agent::IOToken => buf.push(8u8),
        }
        buf.push(byte_or_zero(node.num_ports()));
        proof {
            assert(nv[i as int] == node@);
            assert(nv.take(i + 1).drop_last() =~= nv.take(i as int));
            assert(nv.take(i + 1).last() == nv[i as int]);
            assert(buf@ =~= head + node_items(nv.take(i + 1)));
        }
        i += 1;
    }
    assert(nv.take(nodes.len() as int) =~= nv);
    let ghost mid = buf@;
    push_u32(&mut buf, u32_or_zero(wires.len()));
    let ghost head2 = buf@;
    let mut j: usize = 0;
    while j < wires.len()
        invariant
            j <= wires.len(),
            buf@ == head2 + wire_items(wires@.take(j as int)),
        decreases wires.len() - j,
    {
        let w = &wires[j];
        push_u32(&mut buf, w.source.node.0 as u32);
        buf.push(byte_or_zero(w.source.index.0));
        push_u32(&mut buf, w.target.node.0 as u32);
        buf.push(byte_or_zero(w.target.index.0));
        proof {
            assert(wires@.take(j + 1).drop_last() =~= wires@.take(j as int));
            assert(wires@.take(j + 1).last() == wires@[j as int]);
            assert(buf@ =~= head2 + wire_items(wires@.take(j + 1)));
        }
        j += 1;
    }
    assert(wires@.take(wires.len() as int) =~= wires@);
    assert(buf@ =~= net_section(net@));
    buf
}

/// Writes a module as an object file (see [`module_bytes`]). The exported
/// values and types are listed each once, in the order the exports hold
/// them.
pub fn serialize_module(module: &Module) -> (r: Result<Vec<u8>, ModuleError>)
    requires
        forall|i: int| 0 <= i < module.impls.len() ==> (#[trigger] module.impls@[i]).wf(),
    ensures
        r matches Ok(b) && exists|vs: Seq<(Seq<char>, bool)>, ts: Seq<(Seq<char>, bool)>|
            #![trigger lists_public(vs, module.exports@.values), lists_public(ts, module.exports@.types)]
            lists_public(vs, module.exports@.values) && lists_public(ts, module.exports@.types) && b@ == module_bytes(
                module.name@,
                vs,
                ts,
                module.impls@.map_values(|i: Implementation| impl_summary(i)),
                module.net@,
            ),
{
    let vs = module.exports.public_values();
    let ts = module.exports.public_types();
    let mut buf: Vec<u8> = Vec::new();
    buf.push(0x4c);
    buf.push(0x43);
    buf.push(0x31);
    buf.push(0x30);
    assert(buf@ =~= magic());
    let type_data = types_to_bytes(&ts);
    push_section(&mut buf, &type_data);
    let trait_data = traits_to_bytes(&module.impls);
    push_section(&mut buf, &trait_data);
    let net_data = net_to_bytes(&module.net);
    push_section(&mut buf, &net_data);
    let export_data = exports_to_bytes(&vs, &ts);
    push_section(&mut buf, &export_data);
    let mut debug_data: Vec<u8> = Vec::new();
    push_name(&mut debug_data, module.name.as_str());
    assert(debug_data@ =~= name_bytes(module.name@));
    push_section(&mut buf, &debug_data);
    proof {
        let lv = export_list(vs@);
        let lt = export_list(ts@);
        assert forall|i: int| 0 <= i < lv.len() implies module.exports@.values.dom().contains((#[trigger] lv[i]).0)
            && module.exports@.values[lv[i].0].1 == Visibility::Public && lv[i].1 == module.exports@.values[lv[i].0].2 by {
            assert(lv[i] == (vs@[i].0@, vs@[i].1.transparent));
        }
        assert forall|k: Seq<char>| #[trigger] module.exports@.values.dom().contains(k) && module.exports@.values[k].1
            == Visibility::Public implies exists|i: int| 0 <= i < lv.len() && lv[i].0 == k by {
            let i = choose|i: int| 0 <= i < vs.len() && vs@[i].0@ == k;
            assert(lv[i].0 == k);
        }
        assert forall|i: int, j: int| 0 <= i < j < lv.len() implies lv[i].0 != lv[j].0 by {
            assert(lv[i].0 == vs@[i].0@ && lv[j].0 == vs@[j].0@);
        }
        assert forall|i: int| 0 <= i < lt.len() implies module.exports@.types.dom().contains((#[trigger] lt[i]).0)
            && module.exports@.types[lt[i].0].1 == Visibility::Public && lt[i].1 == module.exports@.types[lt[i].0].2 by {
            assert(lt[i] == (ts@[i].0@, ts@[i].1.transparent));
        }
        assert forall|k: Seq<char>| #[trigger] module.exports@.types.dom().contains(k) && module.exports@.types[k].1
            == Visibility::Public implies exists|i: int| 0 <= i < lt.len() && lt[i].0 == k by {
            let i = choose|i: int| 0 <= i < ts.len() && ts@[i].0@ == k;
            assert(lt[i].0 == k);
        }
        assert forall|i: int, j: int| 0 <= i < j < lt.len() implies lt[i].0 != lt[j].0 by {
            assert(lt[i].0 == ts@[i].0@ && lt[j].0 == ts@[j].0@);
        }
        assert(lists_public(lv, module.exports@.values));
        assert(lists_public(lt, module.exports@.types));
        assert(buf@ =~= module_bytes(
            module.name@,
            lv,
            lt,
            module.impls@.map_values(|i: Implementation| impl_summary(i)),
            module.net@,
        ));
    }
    Ok(buf)
}

/// What [`serialize_module`] writes begins with `LC10`, so
/// [`deserialize_module`] reads it back as a module.
pub proof fn law_serialized_module_reads_back(
    name: Seq<char>,
    vs: Seq<(Seq<char>, bool)>,
    ts: Seq<(Seq<char>, bool)>,
    is: Seq<(Seq<char>, nat)>,
    net: NetView,
)
    ensures
        module_bytes(name, vs, ts, is, net).len() >= 4,
        module_bytes(name, vs, ts, is, net).take(4) == magic(),
{
    let b = module_bytes(name, vs, ts, is, net);
    let rest = with_length(types_section(ts)) + with_length(traits_section(is)) + with_length(net_section(net))
        + with_length(exports_section(vs, ts)) + with_length(name_bytes(name));
    assert(b =~= magic() + rest);
    assert(b.take(4) =~= magic());
}

/// The writes that `Hash::hash` of a string slice makes into std's default
/// hasher: a function of the string alone.
pub uninterp spec fn text_writes(s: Seq<char>) -> Seq<Seq<u8>>;

/// The writes that `Hash::hash` of a `bool` makes into std's default
/// hasher: a function of the flag alone.
pub uninterp spec fn flag_writes(b: bool) -> Seq<Seq<u8>>;

/// Calls `Hash::hash` of a string slice into the hasher, which records the
/// writes named [`text_writes`] after those it held.
#[verifier::external_body]
fn hash_text(h: &mut DefaultHasher, s: &str)
    ensures
        final(h)@ == old(h)@ + text_writes(s@),
{
    std::hash::Hash::hash(s, h)
}

/// Calls `Hash::hash` of a `bool` into the hasher, which records the writes
/// named [`flag_writes`] after those it held.
#[verifier::external_body]
fn hash_flag(h: &mut DefaultHasher, b: bool)
    ensures
        final(h)@ == old(h)@ + flag_writes(b),
{
    std::hash::Hash::hash(&b, h)
}

/// The writes for the public values of a listing: each name, then the
/// `Debug` text of its type.
pub open spec fn value_writes(vs: Seq<(Seq<char>, (SpecType, Visibility, bool))>) -> Seq<Seq<u8>>
    decreases vs.len(),
{
    if vs.len() == 0 {
        seq![]
    } else {
        value_writes(vs.drop_last()) + text_writes(vs.last().0) + text_writes(type_debug(vs.last().1.0))
    }
}

/// The writes for the public types of a listing: each name, then whether
/// it is transparent.
pub open spec fn type_writes(ts: Seq<(Seq<char>, (SpecType, Visibility, bool))>) -> Seq<Seq<u8>>
    decreases ts.len(),
{
    if ts.len() == 0 {
        seq![]
    } else {
        type_writes(ts.drop_last()) + text_writes(ts.last().0) + flag_writes(ts.last().1.2)
    }
}

/// The export hash of a module's exports: std's default hasher fed the
/// public values, then the public types, as [`value_writes`] and
/// [`type_writes`] say, in the order they were first exported.
pub open spec fn export_hash(e: Exports) -> Seq<u8> {
    hash_block(DefaultHasher::spec_finish(value_writes(e.value_listing()) + type_writes(e.type_listing())))
}

/// A 32-byte export hash: the 64-bit hash, little-endian, then 24 zero
/// bytes.
pub open spec fn hash_block(x: u64) -> Seq<u8> {
    spec_u64_to_le_bytes(x) + Seq::new(24, |i: int| 0u8)
}

/// The 32-byte block of a 64-bit hash (see [`hash_block`]).
pub fn hash_bytes(x: u64) -> (h: [u8; 32])
    ensures
        h@ == hash_block(x),
{
    proof {
        vstd::bytes::lemma_auto_spec_u64_to_from_le_bytes();
    }
    let b = u64_to_le_bytes(x);
    let mut h: [u8; 32] = [0u8; 32];
    let mut i: usize = 0;
    while i < 8
        invariant
            i <= 8,
            b@ == spec_u64_to_le_bytes(x),
            b@.len() == 8,
            forall|k: int| 0 <= k < i ==> h@[k] == b@[k],
            forall|k: int| i <= k < 32 ==> h@[k] == 0u8,
            h@.len() == 32,
        decreases 8 - i,
    {
        h[i] = b[i];
        i += 1;
    }
    assert(h@ =~= hash_block(x));
    h
}

/// A hash of a module's public interface (see [`export_hash`]). The 64-bit
/// hash fills the first eight bytes, little-endian; the other 24 are zero.
pub fn get_export_hash(exports: &Exports) -> (h: [u8; 32])
    ensures
        h@ == export_hash(*exports),
{
    let mut hasher = DefaultHasher::new();
    let vs = exports.public_values();
    let ghost lv = listing_view(vs@);
    let mut i: usize = 0;
    while i < vs.len()
        invariant
            i <= vs.len(),
            lv == listing_view(vs@),
            hasher@ == value_writes(lv.take(i as int)),
        decreases vs.len() - i,
    {
        hash_text(&mut hasher, vs[i].0.as_str());
        let text = vs[i].1.ty.debug_text();
        hash_text(&mut hasher, text.as_str());
        proof {
            assert(lv.take(i + 1).drop_last() =~= lv.take(i as int));
            assert(lv.take(i + 1).last() == lv[i as int]);
        }
        i += 1;
    }
    assert(lv.take(vs.len() as int) =~= lv);
    let ts = exports.public_types();
    let ghost lt = listing_view(ts@);
    let ghost head = hasher@;
    let mut j: usize = 0;
    while j < ts.len()
        invariant
            j <= ts.len(),
            lt == listing_view(ts@),
            hasher@ == head + type_writes(lt.take(j as int)),
        decreases ts.len() - j,
    {
        hash_text(&mut hasher, ts[j].0.as_str());
        hash_flag(&mut hasher, ts[j].1.transparent);
        proof {
            assert(lt.take(j + 1).drop_last() =~= lt.take(j as int));
            assert(lt.take(j + 1).last() == lt[j as int]);
            assert(hasher@ =~= head + type_writes(lt.take(j + 1)));
        }
        j += 1;
    }
    assert(lt.take(ts.len() as int) =~= lt);
    let x = hasher.finish();
    hash_bytes(x)
}

/// The export hash depends only on the public values and types: exports
/// with no public entry hash as exports with none at all.
pub proof fn law_export_hash_of_no_public_entries(e: Exports)
    requires
        forall|k: Seq<char>| #[trigger] e@.values.dom().contains(k) ==> e@.values[k].1 != Visibility::Public,
        forall|k: Seq<char>| #[trigger] e@.types.dom().contains(k) ==> e@.types[k].1 != Visibility::Public,
    ensures
        export_hash(e) == hash_block(DefaultHasher::spec_finish(Seq::empty())),
{
    e.lemma_listings();
    if e.value_listing().len() > 0 {
        assert(e@.values.dom().contains(e.value_listing()[0].0));
    }
    if e.type_listing().len() > 0 {
        assert(e@.types.dom().contains(e.type_listing()[0].0));
    }
    assert(value_writes(e.value_listing()) + type_writes(e.type_listing()) =~= Seq::<Seq<u8>>::empty());
}

/// Exports that list the same public values and types, in the same order,
/// have the same export hash; adding a trait changes neither list.
pub proof fn law_export_hash_follows_listings(a: Exports, b: Exports)
    requires
        a.value_listing() == b.value_listing(),
        a.type_listing() == b.type_listing(),
    ensures
        export_hash(a) == export_hash(b),
{
}

} // verus!
