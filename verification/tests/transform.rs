use printf_conv::transform::same_text;
use printf_conv::{
    ConvertFormatArgs, ConvertPrintfs, Expr, ForeignKind, FormatArgs, FormatError, Libc, Mac,
    Print, Stream, Ty,
};

fn c_lit(s: &[u8]) -> Expr {
    Expr::Cast(Box::new(Expr::ByteStr(s.to_vec())), Ty::Other)
}

fn cast(i: usize, ty: Ty) -> Expr {
    Expr::Cast(Box::new(Expr::Arg(i)), ty)
}

fn mac(name: &str, format: &[u8], args: Vec<Expr>) -> Mac {
    Mac { name: name.to_string(), format: format.to_vec(), args }
}

#[test]
fn the_first_marked_argument_is_the_target() {
    assert_eq!(ConvertFormatArgs.target(&[false, true, true]), Some(1));
    assert_eq!(ConvertFormatArgs.target(&[true]), Some(0));
}

#[test]
fn without_a_mark_there_is_no_target() {
    assert_eq!(ConvertFormatArgs.target(&[false, false]), None);
    assert_eq!(ConvertFormatArgs.target(&[]), None);
}

#[test]
fn format_args_takes_the_place_of_the_format_string_and_what_follows() {
    let args = [Expr::Other, c_lit(b"hello %d\n\0"), Expr::Other];
    assert_eq!(
        ConvertFormatArgs.transform(&args, 1, &[]),
        Ok(FormatArgs {
            kept: 1,
            mac: mac("format_args", b"hello {:}\n", vec![cast(1, Ty::I32)]),
            ambiguous: false,
        })
    );
}

#[test]
fn a_marked_literal_is_read() {
    let args = [Expr::Other, Expr::Other];
    let marked = [Expr::ByteStr(b"%x\0".to_vec())];
    assert_eq!(
        ConvertFormatArgs.transform(&args, 0, &marked),
        Ok(FormatArgs {
            kept: 0,
            mac: mac("format_args", b"{:x}", vec![cast(1, Ty::U32)]),
            ambiguous: false,
        })
    );
}

#[test]
fn of_several_marked_literals_the_first_is_read() {
    let args = [Expr::Other, Expr::Other];
    let marked = [Expr::ByteStr(b"%c".to_vec()), Expr::ByteStr(b"%d %d".to_vec())];
    assert_eq!(
        ConvertFormatArgs.transform(&args, 0, &marked),
        Ok(FormatArgs {
            kept: 0,
            mac: mac(
                "format_args",
                b"{:}",
                vec![Expr::Cast(Box::new(cast(1, Ty::U8)), Ty::Char)]
            ),
            ambiguous: true,
        })
    );
}

#[test]
fn format_args_never_folds_the_newline() {
    let args = [c_lit(b"x\n")];
    assert_eq!(
        ConvertFormatArgs.transform(&args, 0, &[]),
        Ok(FormatArgs { kept: 0, mac: mac("format_args", b"x\n", vec![]), ambiguous: false })
    );
}

#[test]
fn a_target_beyond_the_arguments_is_no_format_string() {
    let args = [c_lit(b"x")];
    assert_eq!(
        ConvertFormatArgs.transform(&args, 1, &[]),
        Err(FormatError::InvalidTextArgument { index: 0 })
    );
    assert_eq!(
        ConvertFormatArgs.transform(&args, 7, &[]),
        Err(FormatError::InvalidTextArgument { index: 0 })
    );
}

#[test]
fn format_args_reports_a_malformed_specifier() {
    let args = [Expr::Other, c_lit(b"%y")];
    assert_eq!(
        ConvertFormatArgs.transform(&args, 1, &[]),
        Err(FormatError::MalformedSpecifier { offset: 0 })
    );
}

#[test]
fn foreign_items_are_known_by_name_and_kind() {
    let c = ConvertPrintfs;
    assert_eq!(c.foreign_item("printf", ForeignKind::Fn, true), Some(Libc::Printf));
    assert_eq!(c.foreign_item("fprintf", ForeignKind::Fn, true), Some(Libc::Fprintf));
    assert_eq!(c.foreign_item("stderr", ForeignKind::Static, true), Some(Libc::Stderr));
}

#[test]
fn foreign_items_must_be_no_mangle() {
    let c = ConvertPrintfs;
    assert_eq!(c.foreign_item("printf", ForeignKind::Fn, false), None);
    assert_eq!(c.foreign_item("stderr", ForeignKind::Static, false), None);
}

#[test]
fn foreign_items_of_another_kind_or_name_are_not_known() {
    let c = ConvertPrintfs;
    assert_eq!(c.foreign_item("printf", ForeignKind::Static, true), None);
    assert_eq!(c.foreign_item("stderr", ForeignKind::Fn, true), None);
    assert_eq!(c.foreign_item("fprintf", ForeignKind::Other, true), None);
    assert_eq!(c.foreign_item("sprintf", ForeignKind::Fn, true), None);
    assert_eq!(c.foreign_item("print", ForeignKind::Fn, true), None);
    assert_eq!(c.foreign_item("stdout", ForeignKind::Static, true), None);
    assert_eq!(c.foreign_item("", ForeignKind::Fn, true), None);
}

#[test]
fn printf_becomes_print() {
    let args = [c_lit(b"Number: %d\0"), Expr::Other];
    assert_eq!(
        ConvertPrintfs.transform(Some(Libc::Printf), None, &args),
        Ok(Some(Print {
            stream: Stream::Stdout,
            mac: mac("print", b"Number: {:}", vec![cast(1, Ty::I32)]),
        }))
    );
}

#[test]
fn printf_with_a_newline_becomes_println() {
    let args = [c_lit(b"Number: %d\n\0"), Expr::Other];
    assert_eq!(
        ConvertPrintfs.transform(Some(Libc::Printf), None, &args),
        Ok(Some(Print {
            stream: Stream::Stdout,
            mac: mac("println", b"Number: {:}", vec![cast(1, Ty::I32)]),
        }))
    );
}

#[test]
fn fprintf_to_stderr_becomes_eprint() {
    let args = [Expr::Other, c_lit(b"%s!\0"), c_lit(b"oops\0")];
    let got = ConvertPrintfs.transform(Some(Libc::Fprintf), Some(Libc::Stderr), &args);
    let out = got.unwrap().unwrap();
    assert_eq!(out.stream, Stream::Stderr);
    assert_eq!(out.mac.name, "eprint");
    assert_eq!(out.mac.format, b"{:}!".to_vec());
    assert_eq!(out.mac.args.len(), 1);
}

#[test]
fn fprintf_to_stderr_with_a_newline_becomes_eprintln() {
    let args = [Expr::Other, c_lit(b"%u\n\0"), Expr::Other];
    assert_eq!(
        ConvertPrintfs.transform(Some(Libc::Fprintf), Some(Libc::Stderr), &args),
        Ok(Some(Print {
            stream: Stream::Stderr,
            mac: mac("eprintln", b"{:}", vec![cast(1, Ty::U32)]),
        }))
    );
}

#[test]
fn fprintf_elsewhere_stays() {
    let args = [Expr::Other, c_lit(b"%u\n\0"), Expr::Other];
    assert_eq!(ConvertPrintfs.transform(Some(Libc::Fprintf), None, &args), Ok(None));
    assert_eq!(
        ConvertPrintfs.transform(Some(Libc::Fprintf), Some(Libc::Printf), &args),
        Ok(None)
    );
}

#[test]
fn printf_is_converted_whatever_its_first_argument_resolves_to() {
    let args = [c_lit(b"x\0")];
    assert_eq!(
        ConvertPrintfs.transform(Some(Libc::Printf), Some(Libc::Stderr), &args),
        Ok(Some(Print { stream: Stream::Stdout, mac: mac("print", b"x", vec![]) }))
    );
}

#[test]
fn other_calls_stay() {
    let args = [c_lit(b"%d\0"), Expr::Other];
    assert_eq!(ConvertPrintfs.transform(None, None, &args), Ok(None));
    assert_eq!(ConvertPrintfs.transform(None, Some(Libc::Stderr), &args), Ok(None));
    assert_eq!(ConvertPrintfs.transform(Some(Libc::Stderr), None, &args), Ok(None));
}

#[test]
fn calls_without_arguments_stay() {
    assert_eq!(ConvertPrintfs.transform(Some(Libc::Printf), None, &[]), Ok(None));
    assert_eq!(
        ConvertPrintfs.transform(Some(Libc::Fprintf), Some(Libc::Stderr), &[]),
        Ok(None)
    );
}

#[test]
fn fprintf_without_a_format_string_is_an_error() {
    let args = [Expr::Other];
    assert_eq!(
        ConvertPrintfs.transform(Some(Libc::Fprintf), Some(Libc::Stderr), &args),
        Err(FormatError::InvalidTextArgument { index: 0 })
    );
}

#[test]
fn printf_reports_a_malformed_specifier() {
    let args = [c_lit(b"100%\0")];
    assert_eq!(
        ConvertPrintfs.transform(Some(Libc::Printf), None, &args),
        Err(FormatError::MalformedSpecifier { offset: 3 })
    );
}

#[test]
fn the_stream_says_where_the_format_string_is() {
    assert_eq!(Stream::Stdout.fmt_idx(), 0);
    assert_eq!(Stream::Stderr.fmt_idx(), 1);
}

#[test]
fn same_text_compares_strings() {
    assert!(same_text("printf", "printf"));
    assert!(same_text("", ""));
    assert!(!same_text("printf", "fprintf"));
    assert!(!same_text("printf", "printg"));
    assert!(!same_text("print", "printf"));
    assert!(same_text("é", "é"));
    assert!(!same_text("é", "e"));
}
