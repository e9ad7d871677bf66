use calyx::ast::{Component, Control, Decl, Empty, Port, Portdef, Structure, Wire};
use calyx::ids::Id;
use calyx::passes::add_read_wire::ReadWire;
use calyx::passes::visitor::Changes;

fn id(s: &str) -> Id {
    Id::from_str(s)
}

#[test]
fn read_wire_duplicates_data_wires() {
    let mut comp = Component {
        name: id("main"),
        inputs: vec![Portdef { name: "a".to_string(), width: 32 }],
        outputs: vec![Portdef { name: "b".to_string(), width: 8 }],
        structure: vec![
            Structure::Decl { data: Decl { name: id("x"), component: id("adder") } },
            Structure::Wire {
                data: Wire {
                    src: Port::Comp { component: id("x"), port: id("out") },
                    dest: Port::This { port: id("b") },
                },
            },
        ],
        control: Control::Empty { data: Empty {} },
    };
    let mut changes = Changes::new();
    let mut pass = ReadWire::new();
    assert_eq!(pass.name(), "Duplicate every data wire to implement Futil semantics");
    let r = pass.start(&mut comp, &mut changes);
    assert!(r.is_err());
    assert_eq!(changes.input_ports.len(), 2);
    assert_eq!(changes.input_ports[0].name, "a_read_in");
    assert_eq!(changes.input_ports[0].width, 1);
    assert_eq!(changes.input_ports[1].name, "b_read_out");
    assert_eq!(changes.input_ports[1].width, 1);
    assert_eq!(changes.structure.len(), 1);
    match &changes.structure[0] {
        Structure::Wire { data } => {
            assert!(matches!(&data.src, Port::Comp { component, port }
                if component.id == "x" && port.id == "out_read_out"));
            assert!(matches!(&data.dest, Port::This { port } if port.id == "b_read_in"));
        },
        _ => panic!("expected a wire"),
    }
    assert_eq!(comp.structure.len(), 2);
}

#[test]
fn read_wire_on_empty_component() {
    let mut comp = Component {
        name: id("main"),
        inputs: vec![],
        outputs: vec![],
        structure: vec![],
        control: Control::Empty { data: Empty {} },
    };
    let mut changes = Changes::new();
    assert!(ReadWire::new().start(&mut comp, &mut changes).is_err());
    assert!(changes.input_ports.is_empty());
    assert!(changes.structure.is_empty());
}

#[test]
fn read_wire_keeps_holes() {
    let mut comp = Component {
        name: id("main"),
        inputs: vec![],
        outputs: vec![],
        structure: vec![Structure::Wire {
            data: Wire {
                src: Port::This { port: id("a") },
                dest: Port::Hole { group: id("g"), name: id("done") },
            },
        }],
        control: Control::Empty { data: Empty {} },
    };
    let mut changes = Changes::new();
    assert!(ReadWire::new().start(&mut comp, &mut changes).is_err());
    assert_eq!(changes.structure.len(), 1);
    match &changes.structure[0] {
        Structure::Wire { data } => {
            assert!(matches!(&data.src, Port::This { port } if port.id == "a_read_out"));
            assert!(matches!(&data.dest, Port::Hole { group, name }
                if group.id == "g" && name.id == "done"));
        },
        _ => panic!("expected a wire"),
    }
}
