use freesasa_rs::FreesasaErrorKind;
use freesasa_rs::FreesasaVerbosity;
use freesasa_rs::NodeLevel;
use freesasa_rs::NodeType;
use freesasa_rs::NodeUid;
use freesasa_rs::verbosity_code;
use freesasa_rs::structure::StructureOptions;
use freesasa_rs::structure::char_to_c_char;
use freesasa_rs::structure::compose_residue_field;
use freesasa_rs::structure::pdb_name_from_path;
use freesasa_rs::structure::validate_c_string;
use freesasa_rs::text::i32_to_string;
use freesasa_rs::text::parse_i32;
use freesasa_rs::text::trim_str;

#[test]
fn parse_residue_field_plain_number() {
    assert_eq!(NodeUid::parse_residue_field("123").unwrap(), (123, None));
}

#[test]
fn parse_residue_field_trims_whitespace() {
    assert_eq!(NodeUid::parse_residue_field("  42  ").unwrap(), (42, None));
}

#[test]
fn parse_residue_field_insertion_code() {
    assert_eq!(NodeUid::parse_residue_field("42A").unwrap(), (42, Some('A')));
    assert_eq!(NodeUid::parse_residue_field(" 10B ").unwrap(), (10, Some('B')));
}

#[test]
fn parse_residue_field_negative() {
    assert_eq!(NodeUid::parse_residue_field("-5").unwrap(), (-5, None));
    assert_eq!(NodeUid::parse_residue_field("-5C").unwrap(), (-5, Some('C')));
}

#[test]
fn parse_residue_field_rejects_bad_input() {
    for bad in ["", "   ", "A", "12x3", "99999999999", "2147483648", "--4"] {
        let e = NodeUid::parse_residue_field(bad).unwrap_err();
        assert_eq!(e.kind(), Some(FreesasaErrorKind::InvalidResidueNumber));
    }
}

#[test]
fn parse_residue_field_i32_limits() {
    assert_eq!(NodeUid::parse_residue_field("2147483647").unwrap(), (2147483647, None));
    assert_eq!(NodeUid::parse_residue_field("-2147483648").unwrap(), (-2147483648, None));
    assert!(NodeUid::parse_residue_field("-2147483649").is_err());
}

#[test]
fn parse_chain_label_accepts_one_printable_character() {
    assert_eq!(NodeUid::parse_chain_label("A").unwrap(), 'A');
    assert_eq!(NodeUid::parse_chain_label("z").unwrap(), 'z');
    assert_eq!(NodeUid::parse_chain_label("1").unwrap(), '1');
}

#[test]
fn parse_chain_label_rejects_bad_input() {
    for bad in ["", "AB", " ", "\t"] {
        let e = NodeUid::parse_chain_label(bad).unwrap_err();
        assert_eq!(e.kind(), Some(FreesasaErrorKind::InvalidChainLabel));
    }
}

#[test]
fn uid_new_rejects_partial_identity() {
    assert!(NodeUid::new('A', None, Some("CA".to_string())).is_none());
    assert!(NodeUid::new('A', None, None).is_some());
    assert!(NodeUid::new('A', Some((10, None)), Some("CA".to_string())).is_some());
}

#[test]
fn uid_from_primitive_requires_chain() {
    assert!(NodeUid::from_primitive(None, None, None).is_none());
    assert!(NodeUid::from_primitive(None, Some((1, None)), None).is_none());
    let u = NodeUid::from_primitive(Some('B'), Some((7, Some('x'))), None).unwrap();
    assert_eq!(u.chain(), 'B');
    assert_eq!(u.res_id(), Some((7, Some('x'))));
    assert_eq!(u.atom_name(), None);
}

#[test]
fn uid_accessors_and_equality() {
    let chain = NodeUid::for_chain('A');
    let res = NodeUid::for_residue(&chain, 10, Some('A'));
    let atom = NodeUid::for_atom(&res, "CA".to_string());
    assert_eq!(chain.chain(), 'A');
    assert_eq!(res.res_id(), Some((10, Some('A'))));
    assert_eq!(atom.atom_name(), Some("CA"));
    assert!(atom.equals(&atom.duplicate()));
    assert!(!res.equals(&chain));
    assert_eq!(atom.kind(), NodeType::Atom);
    assert_eq!(res.kind(), NodeType::Residue);
    assert_eq!(chain.kind(), NodeType::Chain);
}

#[test]
fn insertion_code_disambiguates() {
    let chain = NodeUid::for_chain('A');
    let plain = NodeUid::for_residue(&chain, 10, None);
    let coded = NodeUid::for_residue(&chain, 10, Some('A'));
    assert!(!plain.equals(&coded));
    assert!(!coded.equals(&plain));
    assert!(plain.equals(&plain.duplicate()));
}

#[test]
fn uid_labels() {
    let chain = NodeUid::for_chain('A');
    assert_eq!(chain.to_label(), "A");
    let res = NodeUid::for_residue(&chain, 10, None);
    assert_eq!(res.to_label(), "A:10");
    let coded = NodeUid::for_residue(&chain, 10, Some('B'));
    assert_eq!(coded.to_label(), "A:10B");
    let atom = NodeUid::for_atom(&coded, "CA".to_string());
    assert_eq!(atom.to_label(), "A:10B:CA");
    let neg = NodeUid::for_residue(&chain, -5, None);
    assert_eq!(neg.to_label(), "A:-5");
}

#[test]
fn node_type_names_round_trip() {
    for (t, s) in [
        (NodeType::Unknown, "none"),
        (NodeType::Atom, "atom"),
        (NodeType::Residue, "residue"),
        (NodeType::Chain, "chain"),
        (NodeType::Structure, "structure"),
    ] {
        assert_eq!(NodeType::from_str(s), Some(t));
        assert_eq!(t.to_str(), s);
    }
    assert_eq!(NodeType::from_str("ATOM"), Some(NodeType::Atom));
    assert_eq!(NodeType::from_str("Residue"), Some(NodeType::Residue));
    assert_eq!(NodeType::from_str("result"), None);
    assert_eq!(NodeType::from_str("root"), None);
    assert_eq!(NodeType::from_str("bogus"), None);
    assert_eq!(NodeType::Result.to_str(), "result");
    assert_eq!(NodeType::Root.to_str(), "root");
}

#[test]
fn node_level_names_round_trip() {
    for (l, s) in [
        (NodeLevel::Unknown, "none"),
        (NodeLevel::Atom, "atom"),
        (NodeLevel::Residue, "residue"),
        (NodeLevel::Chain, "chain"),
        (NodeLevel::Model, "model"),
    ] {
        assert_eq!(NodeLevel::from_str(s), Some(l));
        assert_eq!(l.to_str(), s);
    }
    assert_eq!(NodeLevel::from_str("MODEL"), Some(NodeLevel::Model));
    assert_eq!(NodeLevel::from_str("structure"), None);
}

#[test]
fn engine_codes_round_trip() {
    assert_eq!(NodeType::Atom.to_fs_level(), 0);
    assert_eq!(NodeType::Residue.to_fs_level(), 1);
    assert_eq!(NodeType::Chain.to_fs_level(), 2);
    assert_eq!(NodeType::Structure.to_fs_level(), 3);
    assert_eq!(NodeType::Result.to_fs_level(), 4);
    assert_eq!(NodeType::Root.to_fs_level(), 5);
    assert_eq!(NodeType::Unknown.to_fs_level(), 6);
    for code in 0..7u32 {
        assert_eq!(NodeType::from_fs_level(code).to_fs_level(), code);
    }
    assert_eq!(NodeLevel::Model.to_fs_level(), 3);
    assert_eq!(NodeLevel::from_fs_level(3), NodeLevel::Model);
    assert_eq!(NodeLevel::from_fs_level(6), NodeLevel::Unknown);
}

#[test]
fn verbosity_codes() {
    assert_eq!(verbosity_code(FreesasaVerbosity::Info), 0);
    assert_eq!(verbosity_code(FreesasaVerbosity::Error), 1);
    assert_eq!(verbosity_code(FreesasaVerbosity::Silent), 2);
    assert_eq!(verbosity_code(FreesasaVerbosity::Debug), 3);
}

#[test]
fn structure_options_bits() {
    let all = StructureOptions::new(true, true, true, true, true, true, true, true);
    assert_eq!(all.bitfield, 1 | 4 | 8 | 16 | 32 | 64 | 128 | 256);
    let none = StructureOptions::new(false, false, false, false, false, false, false, false);
    assert_eq!(none.bitfield, 0);
    let hetatm_only = StructureOptions::new(true, false, false, false, false, false, false, false);
    assert_eq!(hetatm_only.bitfield, 1);
    let occupancy = StructureOptions::new(false, false, false, false, false, false, false, true);
    assert_eq!(occupancy.bitfield, 256);
    assert_eq!(StructureOptions::default().bitfield, 0);
}

#[test]
fn pdb_names_from_paths() {
    assert_eq!(pdb_name_from_path("./data/single_chain.pdb"), "single_chain");
    assert_eq!(pdb_name_from_path("data/3b7y_matt.pdb"), "3b7y_matt");
    assert_eq!(pdb_name_from_path("plain"), "plain");
    assert_eq!(pdb_name_from_path("dir/x.y.z"), "x");
    assert_eq!(pdb_name_from_path(""), "");
}

#[test]
fn c_string_checks() {
    assert!(validate_c_string("hello").is_ok());
    let e = validate_c_string("he\0llo").unwrap_err();
    assert_eq!(e.kind(), Some(FreesasaErrorKind::NullNativeField));
    assert_eq!(char_to_c_char('A').unwrap(), 65);
    assert!(char_to_c_char('é').is_err());
}

#[test]
fn residue_field_composition() {
    assert_eq!(compose_residue_field(257, None), "257");
    assert_eq!(compose_residue_field(257, Some("A")), "257A");
    assert_eq!(compose_residue_field(-3, Some("b")), "-3b");
}

#[test]
fn text_helpers() {
    assert_eq!(trim_str("  abc\t"), "abc");
    assert_eq!(trim_str(""), "");
    assert_eq!(parse_i32("007"), Some(7));
    assert_eq!(parse_i32("+7"), Some(7));
    assert_eq!(parse_i32("-0"), Some(0));
    assert_eq!(parse_i32(""), None);
    assert_eq!(parse_i32("12a"), None);
    assert_eq!(i32_to_string(0), "0");
    assert_eq!(i32_to_string(-2147483648), "-2147483648");
    assert_eq!(i32_to_string(1911), "1911");
}

#[test]
fn error_accessors() {
    let e = freesasa_rs::FreesasaError::new(
        "something went wrong",
        Some(FreesasaErrorKind::JoinFailed),
        Some(-1),
    );
    assert_eq!(e.message(), "something went wrong");
    assert_eq!(e.kind(), Some(FreesasaErrorKind::JoinFailed));
    assert_eq!(e.code(), Some(-1));
}
