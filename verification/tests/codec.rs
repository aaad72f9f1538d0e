//! Scenario tests for the message parsers and encoders: exact accepted
//! lines, exact rejected lines, and exact encoder output bytes.

use eaccess::Error;
use eaccess::NAccess;
use eaccess::NEnvironment;
use eaccess::NProtocol;
use eaccess::PaymentStatus;
use eaccess::A;
use eaccess::C;
use eaccess::F;
use eaccess::G;
use eaccess::K;
use eaccess::L;
use eaccess::M;
use eaccess::N;
use eaccess::P;

#[test]
fn hash_key_line_parses() {
    let m = K::parse(b"abcdefgh\n").unwrap();
    assert_eq!(m.key, b"abcdefgh");
}

#[test]
fn hash_key_line_may_be_empty() {
    let m = K::parse(b"\n").unwrap();
    assert_eq!(m.key, b"");
}

#[test]
fn hash_key_line_without_newline_fails() {
    assert!(K::parse(b"abcdefgh").is_err());
}

#[test]
fn hash_key_line_with_trailing_input_fails() {
    assert!(K::parse(b"abcdefgh\nx").is_err());
}

#[test]
fn hash_key_line_with_foreign_tag_fails() {
    // The key may hold no tab, so a line beginning with another message's
    // tab-delimited tag is rejected.
    assert!(K::parse(b"A\tx\n").is_err());
    assert!(K::parse(b"A\tacct\tKEY\tk\tname\n").is_err());
}

#[test]
fn hash_key_line_with_embedded_tab_fails() {
    assert!(K::parse(b"\tk\n").is_err());
    assert!(K::parse(b"ab\tcd\n").is_err());
}

#[test]
fn auth_line_parses() {
    let m = A::parse(b"A\tuser\tKEY\tsess\tUser Name\n").unwrap();
    assert_eq!(m.account, b"user");
    assert_eq!(m.key, b"sess");
    assert_eq!(m.name, b"User Name");
}

#[test]
fn auth_line_without_newline_fails() {
    assert!(A::parse(b"A\tuser\tKEY\tsess\tUser Name").is_err());
}

#[test]
fn auth_line_with_trailing_input_fails() {
    assert!(A::parse(b"A\tuser\tKEY\tsess\tUser Name\nx").is_err());
}

#[test]
fn auth_line_with_foreign_tag_fails() {
    assert!(A::parse(b"M\tGSIV\tGemStone IV\n").is_err());
}

#[test]
fn auth_line_without_key_literal_fails() {
    assert!(A::parse(b"A\tuser\tNOPE\tsess\tUser Name\n").is_err());
}

#[test]
fn instance_list_parses() {
    let m = M::parse(b"M\tGSIV\tGemStone IV\tDR\tDragonRealms\n").unwrap();
    assert_eq!(m.0.len(), 2);
    assert_eq!(m.0[0].0, b"GSIV");
    assert_eq!(m.0[0].1, b"GemStone IV");
    assert_eq!(m.0[1].0, b"DR");
    assert_eq!(m.0[1].1, b"DragonRealms");
}

#[test]
fn instance_list_with_one_pair_parses() {
    let m = M::parse(b"M\tGSIV\tGemStone IV\n").unwrap();
    assert_eq!(m.0.len(), 1);
}

#[test]
fn instance_list_without_pairs_fails() {
    assert!(M::parse(b"M\t\n").is_err());
}

#[test]
fn instance_list_without_newline_fails() {
    assert!(M::parse(b"M\tGSIV\tGemStone IV").is_err());
    // A full pair terminated by a tab instead of the final newline is
    // likewise not a complete line.
    assert!(M::parse(b"M\tGSIV\tGemStone IV\t").is_err());
}

#[test]
fn instance_list_with_trailing_input_fails() {
    assert!(M::parse(b"M\tGSIV\tGemStone IV\nx").is_err());
}

#[test]
fn instance_list_with_foreign_tag_fails() {
    assert!(M::parse(b"A\tuser\tKEY\tsess\tUser Name\n").is_err());
}

#[test]
fn node_info_with_access_parses() {
    let m = N::parse(b"N\tPRODUCTION|STORM|TRIAL\n").unwrap();
    assert_eq!(m.environment, NEnvironment::Production);
    assert_eq!(m.protocol, NProtocol::Storm);
    assert_eq!(m.access, NAccess::Trial);
}

#[test]
fn node_info_without_access_parses() {
    let m = N::parse(b"N\tPRODUCTION|STORM\n").unwrap();
    assert_eq!(m.environment, NEnvironment::Production);
    assert_eq!(m.protocol, NProtocol::Storm);
    assert_eq!(m.access, NAccess::Absent);
}

#[test]
fn node_info_keeps_unrecognized_fields() {
    let m = N::parse(b"N\tSTAGING|SURGE|VIP\n").unwrap();
    assert_eq!(m.environment, NEnvironment::Other(b"STAGING".to_vec()));
    assert_eq!(m.protocol, NProtocol::Other(b"SURGE".to_vec()));
    assert_eq!(m.access, NAccess::Other(b"VIP".to_vec()));
}

#[test]
fn node_info_without_newline_fails() {
    assert!(N::parse(b"N\tPRODUCTION|STORM").is_err());
    assert!(N::parse(b"N\tPRODUCTION|STORM|TRIAL").is_err());
}

#[test]
fn node_info_with_trailing_input_fails() {
    assert!(N::parse(b"N\tPRODUCTION|STORM\nx").is_err());
    assert!(N::parse(b"N\tPRODUCTION|STORM|TRIAL\nx").is_err());
}

#[test]
fn node_info_with_foreign_tag_fails() {
    assert!(N::parse(b"F\tFREE\n").is_err());
}

#[test]
fn payment_status_parses() {
    let m = F::parse(b"F\tFREE_TO_PLAY\n").unwrap();
    assert_eq!(m.0, PaymentStatus::FreeToPlay);
}

#[test]
fn payment_status_keeps_unrecognized_value() {
    let m = F::parse(b"F\tCOMPED\n").unwrap();
    assert_eq!(m.0, PaymentStatus::Other(b"COMPED".to_vec()));
}

#[test]
fn payment_status_without_newline_fails() {
    assert!(F::parse(b"F\tFREE").is_err());
}

#[test]
fn payment_status_with_trailing_input_fails() {
    assert!(F::parse(b"F\tFREE\nx").is_err());
}

#[test]
fn payment_status_with_foreign_tag_fails() {
    assert!(F::parse(b"N\tPRODUCTION|STORM\n").is_err());
}

#[test]
fn general_info_parses() {
    let m = G::parse(b"G\tGemStone IV\tFREE_TO_PLAY\t0\t\tMKTG=games\tURL=www.play.net/gs4\n")
        .unwrap();
    assert_eq!(m.name, b"GemStone IV");
    assert_eq!(m.model, PaymentStatus::FreeToPlay);
    assert_eq!(m.data.len(), 2);
    assert_eq!(m.data[0].0, b"MKTG");
    assert_eq!(m.data[0].1, b"games");
    assert_eq!(m.data[1].0, b"URL");
    assert_eq!(m.data[1].1, b"www.play.net/gs4");
}

#[test]
fn general_info_without_pairs_fails() {
    assert!(G::parse(b"G\tGemStone IV\tFREE\t0\t\t\n").is_err());
}

#[test]
fn general_info_without_zero_literal_fails() {
    assert!(G::parse(b"G\tGemStone IV\tFREE\t1\t\tKEY=V\n").is_err());
}

#[test]
fn general_info_without_newline_fails() {
    assert!(G::parse(b"G\tGemStone IV\tFREE\t0\t\tKEY=V").is_err());
    assert!(G::parse(b"G\tGemStone IV\tFREE\t0\t\tKEY=V\t").is_err());
}

#[test]
fn general_info_with_trailing_input_fails() {
    assert!(G::parse(b"G\tGemStone IV\tFREE\t0\t\tKEY=V\nx").is_err());
}

#[test]
fn general_info_with_foreign_tag_fails() {
    assert!(G::parse(b"P\ta\tb\tc\td\te\tf\n").is_err());
}

#[test]
fn six_field_line_parses() {
    let m = P::parse(b"P\tone\ttwo\tthree\tfour\tfive\tsix\n").unwrap();
    assert_eq!(m.p0, b"one");
    assert_eq!(m.p1, b"two");
    assert_eq!(m.p2, b"three");
    assert_eq!(m.p3, b"four");
    assert_eq!(m.p4, b"five");
    assert_eq!(m.p5, b"six");
}

#[test]
fn six_field_line_with_five_fields_fails() {
    assert!(P::parse(b"P\tone\ttwo\tthree\tfour\tfive\n").is_err());
}

#[test]
fn six_field_line_without_newline_fails() {
    assert!(P::parse(b"P\tone\ttwo\tthree\tfour\tfive\tsix").is_err());
}

#[test]
fn six_field_line_with_trailing_input_fails() {
    assert!(P::parse(b"P\tone\ttwo\tthree\tfour\tfive\tsix\nx").is_err());
}

#[test]
fn six_field_line_with_foreign_tag_fails() {
    assert!(P::parse(b"G\tname\tFREE\t0\t\tK=V\n").is_err());
}

#[test]
fn character_list_parses() {
    let m = C::parse(b"C\t2\t2\t0\t0\t1\tBob\t2\tAlice\n").unwrap();
    assert_eq!(m.num_characters, 2);
    assert_eq!(m.max_characters, 2);
    assert_eq!(m.n0, 0);
    assert_eq!(m.n1, 0);
    assert_eq!(m.characters.len(), 2);
    assert_eq!(m.characters[0].0, b"1");
    assert_eq!(m.characters[0].1, b"Bob");
    assert_eq!(m.characters[1].0, b"2");
    assert_eq!(m.characters[1].1, b"Alice");
}

#[test]
fn character_list_without_characters_parses() {
    let m = C::parse(b"C\t0\t2\t0\t0\n").unwrap();
    assert_eq!(m.num_characters, 0);
    assert_eq!(m.max_characters, 2);
    assert_eq!(m.characters.len(), 0);
}

#[test]
fn character_list_with_empty_numeric_field_fails() {
    // An empty digit run is a hard parse failure, not the value zero.
    assert!(C::parse(b"C\t\t2\t0\t0\n").is_err());
}

#[test]
fn character_list_with_non_numeric_count_fails() {
    assert!(C::parse(b"C\tx\t2\t0\t0\n").is_err());
}

#[test]
fn character_list_with_oversized_count_fails() {
    // One more than the largest 64-bit value.
    assert!(C::parse(b"C\t18446744073709551616\t2\t0\t0\n").is_err());
}

#[test]
fn character_list_with_largest_count_parses() {
    let m = C::parse(b"C\t18446744073709551615\t2\t0\t0\n").unwrap();
    assert_eq!(m.num_characters, u64::MAX);
}

#[test]
fn character_list_with_leading_zeros_parses() {
    let m = C::parse(b"C\t007\t2\t0\t0\n").unwrap();
    assert_eq!(m.num_characters, 7);
}

#[test]
fn character_list_without_newline_fails() {
    assert!(C::parse(b"C\t2\t2\t0\t0\t1\tBob").is_err());
    assert!(C::parse(b"C\t2\t2\t0\t0\t1\tBob\t").is_err());
    assert!(C::parse(b"C\t1\t2\t0\t0\t").is_err());
}

#[test]
fn character_list_with_trailing_input_fails() {
    assert!(C::parse(b"C\t2\t2\t0\t0\t1\tBob\t2\tAlice\nx").is_err());
}

#[test]
fn character_list_with_foreign_tag_fails() {
    assert!(C::parse(b"L\t117\tSTORM\n").is_err());
}

#[test]
fn launch_info_parses() {
    let line = b"L\tOK\tUPPORT=5535\tGAME=STORM\tGAMECODE=GS4\tFULLGAMENAME=GemStone IV\tGAMEFILE=STORMFE.EXE\tGAMEHOST=storm.gs4.game.play.net\tGAMEPORT=10024\tKEY=63a51cd4a3ff\n";
    let m = L::parse(line).unwrap();
    assert_eq!(m.upport, 5535);
    assert_eq!(m.game, b"STORM");
    assert_eq!(m.game_code, b"GS4");
    assert_eq!(m.full_game_name, b"GemStone IV");
    assert_eq!(m.game_file, b"STORMFE.EXE");
    assert_eq!(m.game_host, b"storm.gs4.game.play.net");
    assert_eq!(m.game_port, 10024);
    assert_eq!(m.key, b"63a51cd4a3ff");
}

#[test]
fn launch_info_without_ok_fails() {
    let line = b"L\tNO\tUPPORT=5535\tGAME=STORM\tGAMECODE=GS4\tFULLGAMENAME=GemStone IV\tGAMEFILE=STORMFE.EXE\tGAMEHOST=host\tGAMEPORT=10024\tKEY=k\n";
    assert!(L::parse(line).is_err());
}

#[test]
fn launch_info_without_newline_fails() {
    let line = b"L\tOK\tUPPORT=5535\tGAME=STORM\tGAMECODE=GS4\tFULLGAMENAME=GemStone IV\tGAMEFILE=STORMFE.EXE\tGAMEHOST=host\tGAMEPORT=10024\tKEY=k";
    assert!(L::parse(line).is_err());
}

#[test]
fn launch_info_with_trailing_input_fails() {
    let line = b"L\tOK\tUPPORT=5535\tGAME=STORM\tGAMECODE=GS4\tFULLGAMENAME=GemStone IV\tGAMEFILE=STORMFE.EXE\tGAMEHOST=host\tGAMEPORT=10024\tKEY=k\nx";
    assert!(L::parse(line).is_err());
}

#[test]
fn launch_info_with_foreign_tag_fails() {
    assert!(L::parse(b"C\t2\t2\t0\t0\n").is_err());
}

#[test]
fn every_failure_is_a_parse_error_with_a_description() {
    let Err(Error::ParseError(what)) = K::parse(b"no newline") else {
        panic!("expected a parse error");
    };
    assert!(!what.is_empty());
    let Err(e) = C::parse(b"C\tx\t2\t0\t0\n") else {
        panic!("expected a parse error");
    };
    assert!(!e.message().is_empty());
}

#[test]
fn hash_key_request_encodes() {
    assert_eq!(K::out(), b"K\n");
}

#[test]
fn instance_list_request_encodes() {
    assert_eq!(M::out(), b"M\n");
}

#[test]
fn character_list_request_encodes() {
    assert_eq!(C::out(), b"C\n");
}

#[test]
fn auth_request_encodes() {
    assert_eq!(A::out(b"user", &[0x40, 0x41]), b"A\tuser\t\x40\x41\n");
}

#[test]
fn node_requests_encode() {
    assert_eq!(N::out(b"GSIV"), b"N\tGSIV\n");
    assert_eq!(F::out(b"GSIV"), b"F\tGSIV\n");
    assert_eq!(G::out(b"GSIV"), b"G\tGSIV\n");
    assert_eq!(P::out(b"GSIV"), b"P\tGSIV\n");
}

#[test]
fn launch_request_encodes() {
    assert_eq!(L::out(b"117", &NProtocol::Storm), b"L\t117\tSTORM\n");
}

#[test]
fn launch_request_encodes_other_protocol_verbatim() {
    assert_eq!(
        L::out(b"117", &NProtocol::Other(b"SURGE".to_vec())),
        b"L\t117\tSURGE\n"
    );
}
