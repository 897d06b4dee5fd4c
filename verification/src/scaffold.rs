//! Project scaffolding for `volter new <name>`: name validation and the
//! contents of the generated `Cargo.toml` and `src/main.rs`.

use vstd::prelude::*;
use vstd::string::*;

use crate::text::chars_of;

verus! {

/// The text of `Cargo.toml` before the project name.
pub open spec fn cargo_head() -> Seq<char> {
    "[package]\nname = \""@
}

/// The text of `Cargo.toml` between the project name and the volter
/// version.
pub open spec fn cargo_middle() -> Seq<char> {
    "\"\nversion = \"0.1.0\"\nedition = \"2021\"\nrust-version = \"1.79\"\n\n[dependencies]\nvolter = \""@
}

/// The text of `Cargo.toml` after the volter version.
pub open spec fn cargo_tail() -> Seq<char> {
    "\"\ntokio = { version = \"1\", features = [\"full\"] }\n"@
}

/// The `Cargo.toml` of a new project.
pub fn cargo_toml_template(project_name: &str, volter_version: &str) -> (r: String)
    ensures
        r@ == cargo_head() + project_name@ + cargo_middle() + volter_version@ + cargo_tail(),
{
    let mut r = "[package]\nname = \"".to_owned();
    r.append(project_name);
    r.append(
        "\"\nversion = \"0.1.0\"\nedition = \"2021\"\nrust-version = \"1.79\"\n\n[dependencies]\nvolter = \"",
    );
    r.append(volter_version);
    r.append("\"\ntokio = { version = \"1\", features = [\"full\"] }\n");
    r
}

/// The text of `src/main.rs` before the project name.
pub open spec fn main_head() -> Seq<char> {
    "//! "@
}

/// The text of `src/main.rs` after the project name.
pub open spec fn main_tail() -> Seq<char> {
    " \u{2014} created by `volter new`.\n\nuse tokio::net::TcpListener;\nuse volter::{get, serve, Router};\n\n/// Root handler.\nasync fn root() -> &'static str {\n    \"Hello, World!\"\n}\n\n#[tokio::main]\nasync fn main() -> Result<(), volter::BoxError> {\n    let app = Router::new().route(\"/\", get(root));\n\n    let addr = std::net::SocketAddr::from(([0, 0, 0, 0], 3000));\n    let listener = TcpListener::bind(addr).await?;\n    eprintln!(\"Listening on http://{addr}\");\n\n    serve(listener, app).await\n}\n"@
}

/// The `src/main.rs` of a new project.
pub fn main_rs_template(project_name: &str) -> (r: String)
    ensures
        r@ == main_head() + project_name@ + main_tail(),
{
    let mut r = "//! ".to_owned();
    r.append(project_name);
    r.append(
        " \u{2014} created by `volter new`.\n\nuse tokio::net::TcpListener;\nuse volter::{get, serve, Router};\n\n/// Root handler.\nasync fn root() -> &'static str {\n    \"Hello, World!\"\n}\n\n#[tokio::main]\nasync fn main() -> Result<(), volter::BoxError> {\n    let app = Router::new().route(\"/\", get(root));\n\n    let addr = std::net::SocketAddr::from(([0, 0, 0, 0], 3000));\n    let listener = TcpListener::bind(addr).await?;\n    eprintln!(\"Listening on http://{addr}\");\n\n    serve(listener, app).await\n}\n",
    );
    r
}

/// Whether `c` may appear in a crate name: a lowercase ASCII letter, a
/// digit, or `-`.
pub open spec fn crate_name_char(c: char) -> bool {
    ('a' <= c && c <= 'z') || ('0' <= c && c <= '9') || c == '-'
}

/// A valid crate name: it starts with a lowercase ASCII letter and holds
/// only lowercase ASCII letters, digits and hyphens.
pub open spec fn valid_crate_name(name: Seq<char>) -> bool {
    &&& name.len() > 0
    &&& 'a' <= name[0] && name[0] <= 'z'
    &&& forall|i: int| 0 <= i < name.len() ==> crate_name_char(#[trigger] name[i])
}

/// Basic crate name validation.
pub fn is_valid_crate_name(name: &str) -> (r: bool)
    ensures
        r == valid_crate_name(name@),
{
    let cs = chars_of(name);
    if cs.len() == 0 {
        return false;
    }
    if !('a' <= cs[0] && cs[0] <= 'z') {
        return false;
    }
    let mut i: usize = 0;
    while i < cs.len()
        invariant
            cs@ == name@,
            i <= cs.len(),
            forall|k: int| 0 <= k < i ==> crate_name_char(#[trigger] name@[k]),
        decreases cs.len() - i,
    {
        let c = cs[i];
        if !(('a' <= c && c <= 'z') || ('0' <= c && c <= '9') || c == '-') {
            assert(!crate_name_char(name@[i as int]));
            return false;
        }
        i = i + 1;
    }
    true
}

/// Why `volter new` refuses to create a project.
#[derive(Debug, Clone)]
pub enum NewProjectError {
    /// The project name is empty.
    EmptyName,
    /// The project name is not a valid crate name.
    InvalidName(String),
    /// A directory of that name already exists.
    AlreadyExists(String),
}

impl NewProjectError {
    /// The error message.
    pub fn message(&self) -> (m: String)
        ensures
            m@ == match self {
                NewProjectError::EmptyName => "project name cannot be empty"@,
                NewProjectError::InvalidName(n) => "`"@ + n@
                    + "` is not a valid Rust crate name. Use only lowercase letters, digits, and hyphens."@,
                NewProjectError::AlreadyExists(n) => "directory `"@ + n@ + "` already exists"@,
            },
    {
        match self {
            NewProjectError::EmptyName => "project name cannot be empty".to_owned(),
            NewProjectError::InvalidName(n) => {
                let mut m = "`".to_owned();
                m.append(n.as_str());
                m.append(
                    "` is not a valid Rust crate name. Use only lowercase letters, digits, and hyphens.",
                );
                m
            },
            NewProjectError::AlreadyExists(n) => {
                let mut m = "directory `".to_owned();
                m.append(n.as_str());
                m.append("` already exists");
                m
            },
        }
    }
}

/// Check a project name for `volter new`: an empty name and an invalid
/// crate name are refused.
pub fn validate_project_name(name: &str) -> (r: Result<(), NewProjectError>)
    ensures
        name@.len() == 0 ==> r matches Err(NewProjectError::EmptyName),
        name@.len() > 0 && !valid_crate_name(name@) ==> (r matches Err(
            NewProjectError::InvalidName(n),
        ) && n@ == name@),
        name@.len() > 0 && valid_crate_name(name@) ==> r is Ok,
{
    if name.unicode_len() == 0 {
        return Err(NewProjectError::EmptyName);
    }
    if !is_valid_crate_name(name) {
        return Err(NewProjectError::InvalidName(name.to_owned()));
    }
    Ok(())
}

/// The refusal of `volter new` when the project directory `name` already
/// exists.
pub fn already_exists(name: &str) -> (e: NewProjectError)
    ensures
        (e matches NewProjectError::AlreadyExists(n) && n@ == name@),
{
    NewProjectError::AlreadyExists(name.to_owned())
}

} // verus!
