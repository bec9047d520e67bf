//! The registry of trait implementations gathered from the modules linked
//! into one program.
use vstd::prelude::*;

use crate::modules::serializer::{deserialize_module, hex_list, magic};
use crate::runtime::evaluator::{first_shared, verify_s5_prime, EvalError};
use crate::text::concat;
use crate::modules::{Module, ModuleError};
use crate::runtime::net::{Net, NetView, NodeId, NodeView, Wire, WireId};
use crate::runtime::translation::empty_net;
use crate::traits::registry::{ImplView, Implementation};
use vstd::bytes::{spec_u32_to_le_bytes, u32_to_le_bytes};

verus! {

/// The implementations of all linked modules, each under its trait's and
/// type's names, with the module it came from; a trait is implemented at
/// most once for a type.
#[derive(Debug)]
pub struct GlobalRegistry {
    impls: Vec<(String, String, Implementation, String)>,
}

/// The key of an entry: the trait's and the type's names.
pub open spec fn entry_key(e: (String, String, Implementation, String)) -> (Seq<char>, Seq<char>) {
    (e.0@, e.1@)
}

impl GlobalRegistry {
    /// No key occurs twice.
    pub closed spec fn wf(&self) -> bool {
        forall|i: int, j: int|
            0 <= i < j < self.impls.len() ==> entry_key(#[trigger] self.impls@[i]) != entry_key(#[trigger] self.impls@[j])
    }

    /// The entries, in the order in which they were added: trait name, type
    /// name, implementation and module.
    pub closed spec fn entries(&self) -> Seq<(Seq<char>, Seq<char>, ImplView, Seq<char>)> {
        self.impls@.map_values(|e: (String, String, Implementation, String)| (e.0@, e.1@, e.2.spec_view(), e.3@))
    }

    /// Whether an entry has the trait `t` and the type `ty`.
    pub open spec fn has_entry(&self, t: Seq<char>, ty: Seq<char>) -> bool {
        exists|i: int| 0 <= i < self.entries().len() && #[trigger] self.entries()[i].0 == t && self.entries()[i].1 == ty
    }

    /// An empty registry.
    pub fn new() -> (r: GlobalRegistry)
        ensures
            r.wf(),
            r.entries() == Seq::<(Seq<char>, Seq<char>, ImplView, Seq<char>)>::empty(),
    {
        let r = GlobalRegistry { impls: Vec::new() };
        assert(r.entries() =~= Seq::<(Seq<char>, Seq<char>, ImplView, Seq<char>)>::empty());
        r
    }

    /// Adds the implementation of `trait_name` for `ty` from `module`; a
    /// second one for the same names is a coherence violation and leaves the
    /// registry as it was.
    pub fn insert(&mut self, trait_name: String, ty: String, impl_block: Implementation, module: String) -> (r: Result<
        (),
        ModuleError,
    >)
        requires
            old(self).wf(),
        ensures
            final(self).wf(),
            old(self).has_entry(trait_name@, ty@) ==> (r matches Err(e) && e.message@
                == "CoherenceViolation: duplicate impl of "@ + trait_name@ + " for "@ + ty@ + " from modules"@),
            old(self).has_entry(trait_name@, ty@) ==> final(self).entries() == old(self).entries(),
            !old(self).has_entry(trait_name@, ty@) ==> r is Ok && final(self).entries() == old(self).entries().push(
                (trait_name@, ty@, impl_block.spec_view(), module@),
            ),
    {
        let mut i: usize = 0;
        while i < self.impls.len()
            invariant
                i <= self.impls.len(),
                self.wf(),
                *self == *old(self),
                forall|j: int| 0 <= j < i ==> !(self.entries()[j].0 == trait_name@ && self.entries()[j].1 == ty@),
            decreases self.impls.len() - i,
        {
            if crate::text::str_eq(self.impls[i].0.as_str(), trait_name.as_str()) && crate::text::str_eq(
                self.impls[i].1.as_str(),
                ty.as_str(),
            ) {
                assert(self.entries()[i as int].0 == trait_name@ && self.entries()[i as int].1 == ty@);
                let a = crate::text::concat("CoherenceViolation: duplicate impl of ", trait_name.as_str());
                let b = crate::text::concat(a.as_str(), " for ");
                let c = crate::text::concat(b.as_str(), ty.as_str());
                return Err(ModuleError { message: crate::text::concat(c.as_str(), " from modules") });
            }
            i += 1;
        }
        let ghost e = (trait_name@, ty@, impl_block.spec_view(), module@);
        self.impls.push((trait_name, ty, impl_block, module));
        proof {
            assert(self.entries() =~= old(self).entries().push(e));
            assert forall|a: int, b: int| 0 <= a < b < self.impls.len() implies entry_key(#[trigger] self.impls@[a])
                != entry_key(#[trigger] self.impls@[b]) by {
                if b == self.impls.len() - 1 {
                    assert(self.entries()[a] == old(self).entries()[a]);
                } else {
                    assert(self.impls@[a] == old(self).impls@[a]);
                    assert(self.impls@[b] == old(self).impls@[b]);
                }
            }
        }
        Ok(())
    }
}

/// An empty registry.
impl Default for GlobalRegistry {
    fn default() -> (r: GlobalRegistry)
        ensures
            r.wf(),
            r.entries() == Seq::<(Seq<char>, Seq<char>, ImplView, Seq<char>)>::empty(),
    {
        GlobalRegistry::new()
    }
}

/// The registry has no two entries with the same trait and type, so the
/// check of coherence across modules passes.
pub fn check_global_coherence(registry: &GlobalRegistry) -> (r: Result<(), ModuleError>)
    requires
        registry.wf(),
    ensures
        r is Ok,
{
    if registry.impls.len() > 1 {
        let mut i: usize = 0;
        while i < registry.impls.len()
            invariant
                registry.wf(),
                i <= registry.impls.len(),
            decreases registry.impls.len() - i,
        {
            let mut j: usize = 0;
            while j < i
                invariant
                    registry.wf(),
                    j <= i < registry.impls.len(),
                decreases i - j,
            {
                if crate::text::str_eq(registry.impls[j].0.as_str(), registry.impls[i].0.as_str()) && crate::text::str_eq(
                    registry.impls[j].1.as_str(),
                    registry.impls[i].1.as_str(),
                ) {
                    assert(entry_key(registry.impls@[j as int]) == entry_key(registry.impls@[i as int]));
                    assert(false);
                }
                j += 1;
            }
            i += 1;
        }
    }
    Ok(())
}

/// The nodes of a list added to a net, in order.
pub open spec fn add_nodes(v: NetView, ns: Seq<NodeView>) -> NetView
    decreases ns.len(),
{
    if ns.len() == 0 {
        v
    } else {
        add_nodes(v, ns.drop_last()).add_node(ns.last())
    }
}

/// The wires of a list added to a net, in order.
pub open spec fn add_wires(v: NetView, ws: Seq<Wire>) -> NetView
    decreases ws.len(),
{
    if ws.len() == 0 {
        v
    } else {
        add_wires(v, ws.drop_last()).add_wire(ws.last())
    }
}

/// The nets of the modules put together: each module's nodes, then its
/// wires, module after module. Node numbers are kept as each module has
/// them.
pub open spec fn combined(nets: Seq<NetView>) -> NetView
    decreases nets.len(),
{
    if nets.len() == 0 {
        empty_net()
    } else {
        let c = combined(nets.drop_last());
        add_wires(add_nodes(c, nets.last().nodes), nets.last().wires)
    }
}

/// The views of the modules' nets.
pub open spec fn module_nets(ms: Seq<Module>) -> Seq<NetView> {
    ms.map_values(|m: Module| m.net@)
}

/// Puts the nets of the modules together into one.
pub fn combine_nets(modules: &[Module]) -> (r: Net)
    ensures
        r@ == combined(module_nets(modules@)),
        r.wf(),
{
    let ghost nets = module_nets(modules@);
    let mut out = Net::new();
    assert(out@ == empty_net());
    let mut i: usize = 0;
    while i < modules.len()
        invariant
            i <= modules.len(),
            nets == module_nets(modules@),
            out.wf(),
            out@ == combined(nets.take(i as int)),
        decreases modules.len() - i,
    {
        let net = &modules[i].net;
        let ghost c = out@;
        let ghost v = net@;
        assert(nets.take(i + 1).drop_last() =~= nets.take(i as int));
        assert(nets.take(i + 1).last() == v);
        let n = net.nodes().len();
        let mut j: usize = 0;
        while j < n
            invariant
                n == v.nodes.len(),
                v == net@,
                j <= n,
                out.wf(),
                out@ == add_nodes(c, v.nodes.take(j as int)),
            decreases n - j,
        {
            let node = net.get_node(NodeId(j)).unwrap().clone();
            assert(v.nodes.take(j + 1).drop_last() =~= v.nodes.take(j as int));
            out.add_node(node);
            j += 1;
        }
        assert(v.nodes.take(n as int) =~= v.nodes);
        let ghost mid = out@;
        let w = net.wires().len();
        let mut j: usize = 0;
        while j < w
            invariant
                w == v.wires.len(),
                v == net@,
                j <= w,
                out.wf(),
                out@ == add_wires(mid, v.wires.take(j as int)),
            decreases w - j,
        {
            let wire = *net.get_wire(WireId(j)).unwrap();
            assert(v.wires.take(j + 1).drop_last() =~= v.wires.take(j as int));
            out.add_wire(wire);
            j += 1;
        }
        assert(v.wires.take(w as int) =~= v.wires);
        i += 1;
    }
    assert(nets.take(modules.len() as int) =~= nets);
    out
}

/// Appends `more` to `bytes`.
fn append_bytes(bytes: &mut Vec<u8>, more: &Vec<u8>)
    ensures
        final(bytes)@ == old(bytes)@ + more@,
{
    let mut i: usize = 0;
    while i < more.len()
        invariant
            i <= more.len(),
            bytes@ == old(bytes)@ + more@.take(i as int),
        decreases more.len() - i,
    {
        bytes.push(more[i]);
        assert(more@.take(i + 1) =~= more@.take(i as int).push(more@[i as int]));
        i += 1;
    }
    assert(more@.take(more.len() as int) =~= more@);
}

/// The executable a link writes: `LC10`, then the numbers of nodes and of
/// wires, each as 32 bits little-endian (cut to their low 32 bits).
pub fn serialize_net(net: &Net) -> (r: Vec<u8>)
    ensures
        r@ == magic() + spec_u32_to_le_bytes(net@.nodes.len() as u32) + spec_u32_to_le_bytes(net@.wires.len() as u32),
{
    let mut bytes: Vec<u8> = Vec::new();
    bytes.push(0x4c);
    bytes.push(0x43);
    bytes.push(0x31);
    bytes.push(0x30);
    assert(bytes@ =~= magic());
    let nodes = u32_to_le_bytes(net.nodes().len() as u32);
    append_bytes(&mut bytes, &nodes);
    let wires = u32_to_le_bytes(net.wires().len() as u32);
    append_bytes(&mut bytes, &wires);
    bytes
}

/// The first object file, from the `i`-th on, that is not a module: too
/// short, or not beginning with `LC10`.
pub open spec fn first_bad(objects: Seq<Seq<u8>>, i: nat) -> Option<nat>
    decreases objects.len() - i,
{
    if i >= objects.len() {
        None
    } else if objects[i as int].len() < 4 || objects[i as int].take(4) != magic() {
        Some(i)
    } else {
        first_bad(objects, i + 1)
    }
}

/// Why an object file is not a module.
pub open spec fn bad_object_message(object: Seq<u8>) -> Seq<char> {
    if object.len() < 4 {
        "Invalid object file: too short"@
    } else {
        "Invalid magic number: "@ + hex_list(object.take(4))
    }
}

/// The views of a list of byte vectors.
pub open spec fn objects_view(v: Seq<Vec<u8>>) -> Seq<Seq<u8>> {
    v.map_values(|o: Vec<u8>| o@)
}

/// Nets that are all empty put together make an empty net.
proof fn lemma_combined_empty(nets: Seq<NetView>)
    requires
        forall|i: int| 0 <= i < nets.len() ==> #[trigger] nets[i] == empty_net(),
    ensures
        combined(nets) == empty_net(),
    decreases nets.len(),
{
    if nets.len() > 0 {
        lemma_combined_empty(nets.drop_last());
        assert(nets.last() == empty_net());
        assert(add_nodes(empty_net(), Seq::<NodeView>::empty()) == empty_net());
    }
}

/// Links object files into the bytes of an executable: each file is read as
/// a module (the first that is not one is refused), the modules' nets are
/// put together and checked (S5'), and the result is written as
/// [`serialize_net`] does. The modules read from object files hold no
/// implementations, so no coherence conflict can arise.
pub fn link(objects: &[Vec<u8>]) -> (r: Result<Vec<u8>, ModuleError>)
    ensures
        first_bad(objects_view(objects@), 0) matches Some(k) ==> (r matches Err(e) && e.message@ == bad_object_message(
            objects@[k as int]@,
        )),
        first_bad(objects_view(objects@), 0) is None ==> (r matches Ok(bytes) && bytes@ == magic() + spec_u32_to_le_bytes(0)
            + spec_u32_to_le_bytes(0)),
{
    let ghost ov = objects_view(objects@);
    let mut modules: Vec<Module> = Vec::new();
    let mut i: usize = 0;
    while i < objects.len()
        invariant
            i <= objects.len(),
            ov == objects_view(objects@),
            modules.len() == i,
            forall|k: int| 0 <= k < i ==> (#[trigger] modules@[k]).net@ == empty_net(),
            first_bad(ov, 0) == first_bad(ov, i as nat),
        decreases objects.len() - i,
    {
        assert(ov[i as int] == objects@[i as int]@);
        match deserialize_module(objects[i].as_slice()) {
            Ok(m) => {
                modules.push(m);
            },
            Err(e) => {
                return Err(e);
            },
        }
        i += 1;
    }
    let net = combine_nets(modules.as_slice());
    proof {
        assert forall|k: int| 0 <= k < modules@.len() implies #[trigger] module_nets(modules@)[k] == empty_net() by {
            assert(modules@[k].net@ == empty_net());
        }
        lemma_combined_empty(module_nets(modules@));
        assert(first_shared(net@, 0) is None);
    }
    if let Err(EvalError::S5PrimeViolation(m)) = verify_s5_prime(&net) {
        let a = concat("Evaluation error: S5PrimeViolation(\"", m.as_str());
        return Err(ModuleError { message: concat(a.as_str(), "\")") });
    }
    Ok(serialize_net(&net))
}

} // verus!
