use sql::domain::SqlValueConversionError;
use sql::text::{i64_to_decimal, parse_i64, trim};
use sql::DomainError;

#[test]
fn trim_removes_unicode_white_space_at_both_ends() {
    assert_eq!(trim("  a b  "), "a b");
    assert_eq!(trim("\t\n x\u{3000}"), "x");
    assert_eq!(trim("   "), "");
    assert_eq!(trim(""), "");
    assert_eq!(trim("abc"), "abc");
}

#[test]
fn parse_i64_follows_the_std_grammar() {
    assert_eq!(parse_i64("0"), Some(0));
    assert_eq!(parse_i64("-15"), Some(-15));
    assert_eq!(parse_i64("+15"), Some(15));
    assert_eq!(parse_i64("007"), Some(7));
    assert_eq!(parse_i64("9223372036854775807"), Some(i64::MAX));
    assert_eq!(parse_i64("-9223372036854775808"), Some(i64::MIN));
    assert_eq!(parse_i64("9223372036854775808"), None);
    assert_eq!(parse_i64("-9223372036854775809"), None);
    assert_eq!(parse_i64("123456789012345678901234567890"), None);
    assert_eq!(parse_i64(""), None);
    assert_eq!(parse_i64("-"), None);
    assert_eq!(parse_i64("+"), None);
    assert_eq!(parse_i64(" 1"), None);
    assert_eq!(parse_i64("1_000"), None);
    assert_eq!(parse_i64("--1"), None);
    assert_eq!(parse_i64("١٢"), None);
}

#[test]
fn decimal_writing_matches_to_string() {
    for v in [0i64, 7, -7, 10, 99, -100, 1234567890, i64::MAX, i64::MIN] {
        assert_eq!(i64_to_decimal(v), v.to_string());
    }
}

#[test]
fn decimal_round_trip() {
    for v in [0i64, 1, -1, 42, -9000, i64::MAX, i64::MIN, 1 << 40] {
        assert_eq!(parse_i64(&i64_to_decimal(v)), Some(v));
    }
}

#[test]
fn error_messages() {
    assert_eq!(
        DomainError::TypeMismatch { expected: "Int".to_string(), found: "Text".to_string() }
            .message(),
        "Tipe tidak cocok: diharapkan 'Int', ditemukan 'Text'"
    );
    assert_eq!(DomainError::invalid_expr("x").message(), "Ekspresi tidak valid: x");
    assert_eq!(DomainError::eval_error("y").message(), "Gagal mengevaluasi: y");
    assert_eq!(DomainError::exec_error("z").message(), "Gagal mengeksekusi: z");
    assert_eq!(
        DomainError::conversion("i64", "Text").message(),
        "Gagal konversi SqlValue: mengharapkan tipe 'i64', tetapi menemukan tipe 'Text'"
    );
    assert_eq!(DomainError::ColumnNotFound("a".to_string()).message(), "Kolom 'a' tidak ditemukan");
    assert_eq!(DomainError::ColumnAlreadyExists("a".to_string()).message(), "Kolom 'a' sudah ada");
    assert_eq!(DomainError::TableNotFound("t".to_string()).message(), "Tabel 't' tidak ditemukan");
    assert_eq!(DomainError::TableAlreadyExists("t".to_string()).message(), "Tabel 't' sudah ada");
    assert_eq!(DomainError::UserNotFound("u".to_string()).message(), "User 'u' tidak ditemukan");
    assert_eq!(DomainError::UserAlreadyExists("u".to_string()).message(), "User 'u' sudah ada");
    assert_eq!(
        DomainError::UserPasswordInvalid("u".to_string()).message(),
        "Password tidak valid untuk user 'u'"
    );
    assert_eq!(
        DomainError::DatabaseNotFound("d".to_string()).message(),
        "Database 'd' tidak ditemukan"
    );
    assert_eq!(
        DomainError::DatabaseAlreadyExists("d".to_string()).message(),
        "Database 'd' sudah ada"
    );
    assert_eq!(DomainError::NoActiveDatabase.message(), "Tidak ada database aktif");
    assert_eq!(DomainError::catalog("c").message(), "c");
    assert_eq!(DomainError::storage("s").message(), "s");
}

#[test]
fn error_constructors() {
    assert_eq!(
        DomainError::conversion("a", "b"),
        DomainError::Conversion { expected: "a", found: "b" }
    );
    assert_eq!(DomainError::catalog("m"), DomainError::Catalog("m".to_string()));
    assert_eq!(DomainError::storage("m"), DomainError::Storage("m".to_string()));
    assert_eq!(DomainError::eval_error("m"), DomainError::EvaluationError("m".to_string()));
}

#[test]
fn conversion_error_text() {
    let e = SqlValueConversionError::new("i64", "Text");
    assert_eq!(e.expected, "i64");
    assert_eq!(e.found, "Text");
    assert_eq!(
        e.message(),
        "Gagal konversi SqlValue: mengharapkan tipe 'i64', tetapi menemukan tipe 'Text'"
    );
}

#[test]
fn trim_uses_the_unicode_white_space_set() {
    assert_eq!(trim("\u{85}\u{a0}a\u{2028}\u{205f}"), "a");
    assert_eq!(trim("\u{200b}a"), "\u{200b}a");
    for c in ['\u{9}', '\u{d}', ' ', '\u{1680}', '\u{2000}', '\u{200a}', '\u{2029}', '\u{202f}', '\u{3000}'] {
        let s = format!("{c}x{c}");
        assert_eq!(trim(&s), "x");
    }
}
