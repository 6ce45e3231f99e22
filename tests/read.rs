use vcd::{
    Command, Error, IdCode, Parser, ScopeItem, ScopeType, SimulationCommand, TimescaleUnit,
    Value, VarType,
};
use vcd::Command::{Begin, ChangeScalar, ChangeVector, End, Timestamp};
use vcd::SimulationCommand::Dumpvars;
use vcd::Value::{V0, V1, X};

fn commands(input: &[u8]) -> Vec<Result<Command, Error>> {
    let mut p = Parser::new(input);
    let mut out = Vec::new();
    while let Some(r) = p.next() {
        let stop = r.is_err();
        out.push(r);
        if stop {
            break;
        }
    }
    out
}

#[test]
fn wikipedia_sample() {
    let sample = b"
    $date
       Date text.
    $end
    $version
       VCD generator text.
    $end
    $comment
       Any comment text.
    $end
    $timescale 100 ns $end
    $scope module logic $end
    $var wire 8 # data $end
    $var wire 1 $ data_valid $end
    $var wire 1 % en $end
    $var wire 1 & rx_en $end
    $var wire 1 ' tx_en $end
    $var wire 1 ( empty $end
    $var wire 1 ) underrun $end
    $upscope $end
    $enddefinitions $end
    $dumpvars
    bxxxxxxxx #
    x$
    0%
    x&
    x'
    1(
    0)
    $end
    #0
    b10000001 #
    0$
    1%
    #2211
    0'
    #2296
    b0 #
    1$
    #2302
    0$
    #2303
        ";

    let mut b = Parser::new(&sample[..]);

    let header = b.parse_header().unwrap();
    assert_eq!(header.comment, Some("Any comment text.".to_string()));
    assert_eq!(header.date, Some("Date text.".to_string()));
    assert_eq!(header.version, Some("VCD generator text.".to_string()));
    assert_eq!(header.timescale, Some((100, TimescaleUnit::NS)));

    assert_eq!(&header.scope.identifier[..], "logic");
    assert_eq!(header.scope.scope_type, ScopeType::Module);

    if let ScopeItem::Var(ref v) = header.scope.children[0] {
        assert_eq!(v.var_type, VarType::Wire);
        assert_eq!(&v.reference[..], "data");
        assert_eq!(v.size, 8);
    } else {
        panic!("Expected Var, found {:?}", header.scope.children[0]);
    }

    let expected = &[
        Begin(Dumpvars),
        ChangeVector(IdCode(2), vec![X, X, X, X, X, X, X, X]),
        ChangeScalar(IdCode(3), X),
        ChangeScalar(IdCode(4), V0),
        ChangeScalar(IdCode(5), X),
        ChangeScalar(IdCode(6), X),
        ChangeScalar(IdCode(7), V1),
        ChangeScalar(IdCode(8), V0),
        End(Dumpvars),
        Timestamp(0),
        ChangeVector(IdCode(2), vec![V1, V0, V0, V0, V0, V0, V0, V1]),
        ChangeScalar(IdCode(3), V0),
        ChangeScalar(IdCode(4), V1),
        Timestamp(2211),
        ChangeScalar(IdCode(6), V0),
        Timestamp(2296),
        ChangeVector(IdCode(2), vec![V0]),
        ChangeScalar(IdCode(3), V1),
        Timestamp(2302),
        ChangeScalar(IdCode(3), V0),
        Timestamp(2303),
    ];

    for e in expected.iter() {
        let i = b.next().unwrap();
        assert_eq!(&i.unwrap(), e);
    }
    assert!(b.next().is_none());
}

#[test]
fn timescale_spaced_and_compact() {
    let mut p = Parser::new(b"$timescale 100 ns $end $scope module top $end $upscope $end $enddefinitions $end");
    assert_eq!(p.parse_header().unwrap().timescale, Some((100, TimescaleUnit::NS)));
    let mut p = Parser::new(b"$timescale 100ns $end $scope module top $end $upscope $end $enddefinitions $end");
    assert_eq!(p.parse_header().unwrap().timescale, Some((100, TimescaleUnit::NS)));
    let mut p = Parser::new(b"$timescale 1ps $end ");
    assert_eq!(p.next().unwrap().unwrap(), Command::Timescale(1, TimescaleUnit::PS));
    let mut p = Parser::new(b"$timescale 10 fs $end ");
    assert_eq!(p.next().unwrap().unwrap(), Command::Timescale(10, TimescaleUnit::FS));
}

#[test]
fn timescale_errors() {
    assert_eq!(commands(b"$timescale 100 xs $end ")[0], Err(Error::InvalidKeyword));
    assert_eq!(commands(b"$timescale ns $end ")[0], Err(Error::InvalidNumber));
    assert_eq!(commands(b"$timescale 100 ns foo ")[0], Err(Error::ExpectedEnd));
    assert_eq!(commands(b"$timescale 123456789 ns $end ")[0], Err(Error::TokenTooLong));
}

#[test]
fn vector_most_significant_first() {
    assert_eq!(
        commands(b"b10000001 #\n"),
        vec![Ok(Command::ChangeVector(IdCode(2), vec![V1, V0, V0, V0, V0, V0, V0, V1]))]
    );
    assert_eq!(commands(b"B0 #\n"), vec![Ok(Command::ChangeVector(IdCode(2), vec![V0]))]);
    assert_eq!(commands(b"bzZxX #\n"), vec![Ok(Command::ChangeVector(IdCode(2), vec![Value::Z, Value::Z, X, X]))]);
}

#[test]
fn scalar_value_before_code() {
    assert_eq!(commands(b"0%\n"), vec![Ok(Command::ChangeScalar(IdCode(4), Value::V0))]);
    assert_eq!(commands(b"Z!\n"), vec![Ok(Command::ChangeScalar(IdCode(0), Value::Z))]);
}

#[test]
fn dumpvars_block_brackets() {
    let got = commands(b"$dumpvars 1! 0\" $end $dumpoff x! $end");
    assert_eq!(
        got,
        vec![
            Ok(Command::Begin(SimulationCommand::Dumpvars)),
            Ok(Command::ChangeScalar(IdCode(0), Value::V1)),
            Ok(Command::ChangeScalar(IdCode(1), Value::V0)),
            Ok(Command::End(SimulationCommand::Dumpvars)),
            Ok(Command::Begin(SimulationCommand::Dumpoff)),
            Ok(Command::ChangeScalar(IdCode(0), Value::X)),
            Ok(Command::End(SimulationCommand::Dumpoff)),
        ]
    );
}

#[test]
fn unmatched_end_fails() {
    assert_eq!(commands(b"$end\n"), vec![Err(Error::UnmatchedEnd)]);
    assert_eq!(
        commands(b"$dumpall $end $end\n"),
        vec![
            Ok(Command::Begin(SimulationCommand::Dumpall)),
            Ok(Command::End(SimulationCommand::Dumpall)),
            Err(Error::UnmatchedEnd),
        ]
    );
}

#[test]
fn token_too_long_fails() {
    let mut input = b"b".to_vec();
    input.extend(std::iter::repeat(b'1').take(33));
    input.extend(b" !\n");
    assert_eq!(commands(&input), vec![Err(Error::TokenTooLong)]);
    let mut input = b"b".to_vec();
    input.extend(std::iter::repeat(b'1').take(32));
    input.extend(b" !\n");
    assert_eq!(commands(&input).len(), 1);
    assert!(commands(&input)[0].is_ok());
    assert_eq!(commands(b"$enddefinitionsxyz $end")[0], Err(Error::TokenTooLong));
}

#[test]
fn invalid_value_byte_fails() {
    assert_eq!(commands(b"a%\n"), vec![Err(Error::UnexpectedCharacter)]);
    assert_eq!(commands(b"b10a1 %\n"), vec![Err(Error::InvalidValue)]);
}

#[test]
fn end_of_input() {
    assert!(commands(b"").is_empty());
    assert!(commands(b" \t\r\n ").is_empty());
    assert_eq!(commands(b"#"), vec![Err(Error::UnexpectedEof)]);
    assert_eq!(commands(b"$comment never closed"), vec![Err(Error::UnexpectedEof)]);
    assert_eq!(commands(b"#12"), vec![Ok(Command::Timestamp(12))]);
}

#[test]
fn timestamps() {
    assert_eq!(commands(b"#18446744073709551615 "), vec![Ok(Command::Timestamp(u64::MAX))]);
    assert_eq!(commands(b"#18446744073709551616 "), vec![Err(Error::InvalidNumber)]);
    assert_eq!(commands(b"#1a "), vec![Err(Error::InvalidNumber)]);
    assert_eq!(commands(b"#+7 "), vec![Ok(Command::Timestamp(7))]);
    assert_eq!(commands(b"# $end "), vec![Err(Error::UnexpectedEnd)]);
}

#[test]
fn real_and_string_changes() {
    assert_eq!(
        commands(b"r1.5 !\nsHello \"\n"),
        vec![
            Ok(Command::ChangeReal(IdCode(0), "1.5".to_string())),
            Ok(Command::ChangeString(IdCode(1), "Hello".to_string())),
        ]
    );
}

#[test]
fn id_codes() {
    assert_eq!(commands(b"1~ "), vec![Ok(Command::ChangeScalar(IdCode(93), Value::V1))]);
    assert_eq!(commands(b"1!\" "), vec![Ok(Command::ChangeScalar(IdCode(94), Value::V1))]);
    assert_eq!(commands(b"1\"! "), vec![Ok(Command::ChangeScalar(IdCode(1), Value::V1))]);
    assert_eq!(vcd::parse_id_code(&[0x7f]), None);
    assert_eq!(vcd::parse_id_code(&[b'~'; 11]), None);
    assert_eq!(vcd::parse_id_code(&[b'~'; 9]), Some(IdCode(94u64.pow(9) - 1)));
}

#[test]
fn text_fields_are_trimmed() {
    let got = commands(b"$comment \n  two  words\t $end $date d$end $version $end");
    assert_eq!(
        got,
        vec![
            Ok(Command::Comment("two  words".to_string())),
            Ok(Command::Date("d".to_string())),
            Ok(Command::Version(String::new())),
        ]
    );
    assert_eq!(commands(b"$comment \xff $end"), vec![Err(Error::InvalidUtf8)]);
}

#[test]
fn declarations() {
    assert_eq!(
        commands(b"$scope task t1 $end $var reg 4 ! r $end $upscope $end $enddefinitions $end"),
        vec![
            Ok(Command::ScopeDef(ScopeType::Task, "t1".to_string())),
            Ok(Command::VarDef(VarType::Reg, 4, IdCode(0), "r".to_string())),
            Ok(Command::Upscope),
            Ok(Command::Enddefinitions),
        ]
    );
    assert_eq!(commands(b"$var wire 0 ! r $end")[0], Err(Error::InvalidNumber));
    assert_eq!(commands(b"$var wyre 1 ! r $end")[0], Err(Error::InvalidKeyword));
    assert_eq!(commands(b"$var wire 1 \x7f r $end")[0], Err(Error::InvalidIdCode));
    assert_eq!(commands(b"$scope room top $end")[0], Err(Error::InvalidKeyword));
    assert_eq!(commands(b"$scope $end")[0], Err(Error::UnexpectedEnd));
    assert_eq!(commands(b"$upscope now")[0], Err(Error::ExpectedEnd));
    assert_eq!(commands(b"$frobnicate $end")[0], Err(Error::InvalidKeyword));
}

#[test]
fn nested_scopes_keep_order() {
    let mut p = Parser::new(
        b"$scope module top $end
          $var wire 1 ! a $end
          $scope function f $end
            $var integer 32 \" b $end
          $upscope $end
          $var wire 2 # c $end
          $upscope $end
          $enddefinitions $end
          #5",
    );
    let h = p.parse_header().unwrap();
    assert_eq!(h.comment, None);
    assert_eq!(h.timescale, None);
    let kids = &h.scope.children;
    assert_eq!(kids.len(), 3);
    match &kids[0] {
        ScopeItem::Var(v) => assert_eq!(v.reference, "a"),
        other => panic!("{:?}", other),
    }
    match &kids[1] {
        ScopeItem::Scope(s) => {
            assert_eq!(s.scope_type, ScopeType::Function);
            assert_eq!(s.identifier, "f");
            match &s.children[0] {
                ScopeItem::Var(v) => {
                    assert_eq!(v.var_type, VarType::Integer);
                    assert_eq!(v.size, 32);
                    assert_eq!(v.code, IdCode(1));
                }
                other => panic!("{:?}", other),
            }
        }
        other => panic!("{:?}", other),
    }
    match &kids[2] {
        ScopeItem::Var(v) => assert_eq!((v.size, v.reference.as_str()), (2, "c")),
        other => panic!("{:?}", other),
    }
    assert_eq!(p.next().unwrap(), Ok(Command::Timestamp(5)));
}

#[test]
fn header_errors() {
    assert_eq!(Parser::new(b"$comment c $end").parse_header(), Err(Error::UnexpectedEofInHeader));
    assert_eq!(Parser::new(b"#0 $enddefinitions $end").parse_header(), Err(Error::UnexpectedCommandInHeader));
    assert_eq!(Parser::new(b"$scope module m $end #1").parse_header(), Err(Error::UnexpectedCommandInScope));
    assert_eq!(Parser::new(b"$scope module m $end ").parse_header(), Err(Error::UnexpectedEofInScope));
    let mut deep = Vec::new();
    for _ in 0..300 {
        deep.extend(b"$scope module m $end ");
    }
    assert_eq!(Parser::new(&deep).parse_header(), Err(Error::ScopeTooDeep));
}

#[test]
fn decimal_numbers() {
    assert_eq!(vcd::parse_decimal(b"+12", 100), Some(12));
    assert_eq!(vcd::parse_decimal(b"", 100), None);
    assert_eq!(vcd::parse_decimal(b"+", 100), None);
    assert_eq!(vcd::parse_decimal(b"-1", 100), None);
    assert_eq!(vcd::parse_decimal(b"4294967295", 4294967295), Some(4294967295));
    assert_eq!(vcd::parse_decimal(b"4294967296", 4294967295), None);
}

#[test]
fn keyword_tables() {
    assert_eq!(vcd::parse_scope_type(b"fork"), Some(ScopeType::Fork));
    assert_eq!(vcd::parse_var_type(b"tri1"), Some(VarType::Tri1));
    assert_eq!(vcd::parse_var_type(b"Wire"), None);
    assert_eq!(vcd::parse_timescale_unit(b"us"), Some(TimescaleUnit::US));
    assert_eq!(vcd::parse_value(b'X'), Some(Value::X));
    assert_eq!(vcd::parse_value(b'2'), None);
    assert!(vcd::whitespace_byte(b'\t'));
    assert!(!vcd::whitespace_byte(b'a'));
}

#[test]
fn depth_limit_is_configurable() {
    let input = b"$scope module a $end $scope module b $end $upscope $end $upscope $end $enddefinitions $end";
    let mut p = Parser::new(input);
    p.set_max_depth(1);
    assert_eq!(p.parse_header(), Err(Error::ScopeTooDeep));
    let mut p = Parser::new(input);
    p.set_max_depth(2);
    assert_eq!(p.parse_header().unwrap().scope.children.len(), 1);
}
