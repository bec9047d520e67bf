use lambda_cicle::modules::export::Exports;
use lambda_cicle::modules::linker::{check_global_coherence, combine_nets, link, serialize_net, GlobalRegistry};
use lambda_cicle::modules::serializer::deserialize_module;
use lambda_cicle::modules::Module;
use lambda_cicle::runtime::net::{Agent, Net, Node, NodeId, PortIndex};

fn module(net: Net) -> Module {
    Module { name: "m".to_string(), exports: Exports::new(), impls: Vec::new(), net }
}

#[test]
fn short_object_is_refused() {
    match deserialize_module(b"LC") {
        Err(e) => assert_eq!(e.message, "Invalid object file: too short"),
        Ok(_) => panic!("accepted a short file"),
    }
}

#[test]
fn wrong_magic_is_refused_with_its_bytes() {
    match deserialize_module(&[0x00, 0x0a, 0xff, 0x10, 0x01]) {
        Err(e) => assert_eq!(e.message, "Invalid magic number: [0, a, ff, 10]"),
        Ok(_) => panic!("accepted a bad file"),
    }
}

#[test]
fn object_with_magic_reads_as_empty_module() {
    let m = deserialize_module(b"LC10rest").unwrap();
    assert_eq!(m.name, "deserialized");
    assert!(m.impls.is_empty());
    assert!(m.net.is_empty());
}

#[test]
fn net_counts_are_written_after_magic() {
    let mut net = Net::new();
    let a = net.add_node(Node::epsilon());
    let b = net.add_node(Node::epsilon());
    net.connect(a, PortIndex(0), b, PortIndex(0));
    assert_eq!(serialize_net(&net), vec![0x4c, 0x43, 0x31, 0x30, 2, 0, 0, 0, 1, 0, 0, 0]);
}

#[test]
fn nets_are_put_together_in_order() {
    let mut first = Net::new();
    first.add_node(Node::lambda());
    let mut second = Net::new();
    let x = second.add_node(Node::delta());
    let y = second.add_node(Node::epsilon());
    second.connect(x, PortIndex(0), y, PortIndex(0));
    let combined = combine_nets(&[module(first), module(second)]);
    assert_eq!(combined.nodes().len(), 3);
    assert_eq!(combined.get_node(NodeId(0)).unwrap().agent, Agent::Lambda);
    assert_eq!(combined.get_node(NodeId(1)).unwrap().agent, Agent::Delta);
    // node numbers are kept as each module had them
    assert_eq!(combined.get_connected_port(NodeId(0), PortIndex(0)), Some((NodeId(1), PortIndex(0))));
}

#[test]
fn linking_object_files() {
    assert_eq!(
        link(&[b"LC10".to_vec(), b"LC10abc".to_vec()]).unwrap(),
        vec![0x4c, 0x43, 0x31, 0x30, 0, 0, 0, 0, 0, 0, 0, 0]
    );
    match link(&[b"LC10".to_vec(), b"XY".to_vec(), b"ABCD".to_vec()]) {
        Err(e) => assert_eq!(e.message, "Invalid object file: too short"),
        Ok(_) => panic!("linked a bad file"),
    }
    assert!(check_global_coherence(&GlobalRegistry::new()).is_ok());
}
