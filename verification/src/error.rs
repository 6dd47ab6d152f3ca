use vstd::prelude::*;

verus! {

/// Errors raised by the storage engine, the catalog and the expression layer.
///
/// Every variant that carries a message keeps it as an owned string.
#[allow(inconsistent_fields)]
#[derive(Debug, Clone, PartialEq, Eq)]
pub enum DomainError {
    TypeMismatch { expected: String, found: String },
    InvalidExpression(String),
    EvaluationError(String),
    ExecutionError(String),
    Conversion { expected: &'static str, found: &'static str },
    ColumnNotFound(String),
    ColumnAlreadyExists(String),
    TableNotFound(String),
    TableAlreadyExists(String),
    UserNotFound(String),
    UserAlreadyExists(String),
    UserPasswordInvalid(String),
    DatabaseNotFound(String),
    DatabaseAlreadyExists(String),
    NoActiveDatabase,
    Catalog(String),
    Storage(String),
}

impl DomainError {
    /// Error for a failed extraction of a value into a native type.
    pub fn conversion(expected: &'static str, found: &'static str) -> (e: Self)
        ensures
            e == (DomainError::Conversion { expected, found }),
    {
        DomainError::Conversion { expected, found }
    }

    /// Error for an expression that cannot be built or bound.
    pub fn invalid_expr(msg: &str) -> (e: Self)
        ensures
            e matches DomainError::InvalidExpression(m) && m@ == msg@,
    {
        DomainError::InvalidExpression(msg.to_owned())
    }

    /// Error for an expression whose evaluation failed.
    pub fn eval_error(msg: &str) -> (e: Self)
        ensures
            e matches DomainError::EvaluationError(m) && m@ == msg@,
    {
        DomainError::EvaluationError(msg.to_owned())
    }

    /// Error for a statement whose execution failed.
    pub fn exec_error(msg: &str) -> (e: Self)
        ensures
            e matches DomainError::ExecutionError(m) && m@ == msg@,
    {
        DomainError::ExecutionError(msg.to_owned())
    }

    /// Error raised by the catalog.
    pub fn catalog(msg: &str) -> (e: Self)
        ensures
            e matches DomainError::Catalog(m) && m@ == msg@,
    {
        DomainError::Catalog(msg.to_owned())
    }

    /// Error raised by the page and buffer layer.
    pub fn storage(msg: &str) -> (e: Self)
        ensures
            e matches DomainError::Storage(m) && m@ == msg@,
    {
        DomainError::Storage(msg.to_owned())
    }
}

/// The text of an error, as it is shown to a user.
pub open spec fn error_message(e: DomainError) -> Seq<char> {
    match e {
        DomainError::TypeMismatch { expected, found } => "Tipe tidak cocok: diharapkan '"@
            + expected@ + "', ditemukan '"@ + found@ + "'"@,
        DomainError::InvalidExpression(m) => "Ekspresi tidak valid: "@ + m@,
        DomainError::EvaluationError(m) => "Gagal mengevaluasi: "@ + m@,
        DomainError::ExecutionError(m) => "Gagal mengeksekusi: "@ + m@,
        DomainError::Conversion { expected, found } =>
            "Gagal konversi SqlValue: mengharapkan tipe '"@ + expected@
            + "', tetapi menemukan tipe '"@ + found@ + "'"@,
        DomainError::ColumnNotFound(m) => "Kolom '"@ + m@ + "' tidak ditemukan"@,
        DomainError::ColumnAlreadyExists(m) => "Kolom '"@ + m@ + "' sudah ada"@,
        DomainError::TableNotFound(m) => "Tabel '"@ + m@ + "' tidak ditemukan"@,
        DomainError::TableAlreadyExists(m) => "Tabel '"@ + m@ + "' sudah ada"@,
        DomainError::UserNotFound(m) => "User '"@ + m@ + "' tidak ditemukan"@,
        DomainError::UserAlreadyExists(m) => "User '"@ + m@ + "' sudah ada"@,
        DomainError::UserPasswordInvalid(m) => "Password tidak valid untuk user '"@ + m@ + "'"@,
        DomainError::DatabaseNotFound(m) => "Database '"@ + m@ + "' tidak ditemukan"@,
        DomainError::DatabaseAlreadyExists(m) => "Database '"@ + m@ + "' sudah ada"@,
        DomainError::NoActiveDatabase => "Tidak ada database aktif"@,
        DomainError::Catalog(m) => m@,
        DomainError::Storage(m) => m@,
    }
}

/// `a`, then `b`, then `c`.
fn join3(a: &str, b: &str, c: &str) -> (r: String)
    ensures
        r@ == a@ + b@ + c@,
{
    let mut s = String::from_str(a);
    s.append(b);
    s.append(c);
    s
}

impl DomainError {
    /// The text of the error, as it is shown to a user.
    pub fn message(&self) -> (r: String)
        ensures
            r@ == error_message(*self),
    {
        match self {
            DomainError::TypeMismatch { expected, found } => {
                let mut s = join3("Tipe tidak cocok: diharapkan '", expected.as_str(), "', ditemukan '");
                s.append(found.as_str());
                s.append("'");
                s
            },
            DomainError::InvalidExpression(m) => {
                let mut s = String::from_str("Ekspresi tidak valid: ");
                s.append(m.as_str());
                s
            },
            DomainError::EvaluationError(m) => {
                let mut s = String::from_str("Gagal mengevaluasi: ");
                s.append(m.as_str());
                s
            },
            DomainError::ExecutionError(m) => {
                let mut s = String::from_str("Gagal mengeksekusi: ");
                s.append(m.as_str());
                s
            },
            DomainError::Conversion { expected, found } => {
                let mut s = join3(
                    "Gagal konversi SqlValue: mengharapkan tipe '",
                    expected,
                    "', tetapi menemukan tipe '",
                );
                s.append(found);
                s.append("'");
                s
            },
            DomainError::ColumnNotFound(m) => join3("Kolom '", m.as_str(), "' tidak ditemukan"),
            DomainError::ColumnAlreadyExists(m) => join3("Kolom '", m.as_str(), "' sudah ada"),
            DomainError::TableNotFound(m) => join3("Tabel '", m.as_str(), "' tidak ditemukan"),
            DomainError::TableAlreadyExists(m) => join3("Tabel '", m.as_str(), "' sudah ada"),
            DomainError::UserNotFound(m) => join3("User '", m.as_str(), "' tidak ditemukan"),
            DomainError::UserAlreadyExists(m) => join3("User '", m.as_str(), "' sudah ada"),
            DomainError::UserPasswordInvalid(m) => join3(
                "Password tidak valid untuk user '",
                m.as_str(),
                "'",
            ),
            DomainError::DatabaseNotFound(m) => join3("Database '", m.as_str(), "' tidak ditemukan"),
            DomainError::DatabaseAlreadyExists(m) => join3("Database '", m.as_str(), "' sudah ada"),
            DomainError::NoActiveDatabase => String::from_str("Tidak ada database aktif"),
            DomainError::Catalog(m) => m.clone(),
            DomainError::Storage(m) => m.clone(),
        }
    }
}

} // verus!
