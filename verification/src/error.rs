//! The ways in which a fleet operation can fail.

use vstd::prelude::*;
use crate::text::{decimal, from_chars, lossy_text, push_decimal, push_str, utf8_lossy};

verus! {

/// Why an operation on the fleet was refused or could not be completed.
#[derive(Debug)]
pub enum Error {
    /// An external command ended with a status other than success.
    CommandFailure { code: Option<i32>, stderr: Option<Vec<u8>> },
    /// The surrounding session is not the session of a server.
    InvalidServerSession(String),
    /// The working directory is not inside the servers directory.
    InvalidServersDirectory,
    /// The last-used record of the named server is not eight bytes long.
    InvalidTimestampFile(String),
    /// A directory that has to exist does not.
    MissingDirectory { dir: String },
    /// A file that has to exist does not.
    MissingFile { file: String },
    /// No server was named and no default server is configured.
    NoDefaultServer,
    /// No remote-console settings are configured at all.
    NoRconConfig,
    /// The working directory is the servers directory itself.
    NoServerChild,
    /// The environment names no session.
    NoSessionName,
    /// A platform query found no usable entry; the text says which.
    PlatformsNotFound(String),
    /// The guard around the configuration was poisoned.
    ConfigMutexPoisoned,
    /// The named server has no remote-console settings.
    MissingRconConfig(String),
    /// A server of that name exists already.
    ServerAlreadyExists(String),
    /// The clock reads a time before the epoch.
    TimeWentBackwards,
    /// No server of that name exists.
    ServerNotFound(String),
    /// A template for that server exists already.
    TemplateAlreadyExists(String),
    /// A template was asked to run.
    TemplateDeployed,
    /// No template of that name exists.
    TemplateNotFound(String),
    /// A template was given as the source of a new template.
    TemplateUsedForTemplate,
    /// A download address is no valid URL; the text says why, in the words
    /// of the `url` crate.
    UrlParse(String),
}

/// The numeral of a whole number: a minus sign before the numeral of its
/// size where it is negative.
pub open spec fn signed_decimal(n: int) -> Seq<char> {
    if n < 0 {
        seq!['-'] + decimal((-n) as nat)
    } else {
        decimal(n as nat)
    }
}

/// The text of an exit code, `none` where there is none.
pub open spec fn code_text(code: Option<i32>) -> Seq<char> {
    match code {
        Some(c) => signed_decimal(c as int),
        None => "none"@,
    }
}

/// What follows the exit code in the message of a failed command: a colon
/// and what the command wrote as errors, where that was captured.
pub open spec fn stderr_text(stderr: Option<Vec<u8>>) -> Seq<char> {
    match stderr {
        Some(bytes) => ": "@ + utf8_lossy(bytes@),
        None => Seq::empty(),
    }
}

/// The message of an error.
pub open spec fn message_text(error: Error) -> Seq<char> {
    match error {
        Error::CommandFailure { code, stderr } => "Command failed with code "@ + code_text(code)
            + stderr_text(stderr),
        Error::InvalidServerSession(s) => "Invalid server session: `"@ + s@ + "`"@,
        Error::InvalidServersDirectory => "Invalid servers directory"@,
        Error::InvalidTimestampFile(s) => "Timestamp file ("@ + s@ + ") is invalid"@,
        Error::MissingDirectory { dir } => "Missing directory: "@ + dir@,
        Error::MissingFile { file } => "Missing file: "@ + file@,
        Error::NoDefaultServer => "There is no default server"@,
        Error::NoRconConfig => "Rcon config is not present, but required for remote connections"@,
        Error::NoServerChild => "No server child was given"@,
        Error::NoSessionName => "No session name found"@,
        Error::PlatformsNotFound(s) => "Platforms not found: "@ + s@,
        Error::ConfigMutexPoisoned => "The configuration mutex has been poisoned"@,
        Error::MissingRconConfig(s) => "Rcon config is missing for server: "@ + s@,
        Error::ServerAlreadyExists(s) => "Server "@ + s@ + " already exists"@,
        Error::TimeWentBackwards => "The machine's local time went backwards"@,
        Error::ServerNotFound(s) => "Server "@ + s@ + " was not found"@,
        Error::TemplateAlreadyExists(s) => "Template "@ + s@ + " already exists"@,
        Error::TemplateDeployed => "Template servers cannot be deployed"@,
        Error::TemplateNotFound(s) => "Template with the name "@ + s@ + " was not found"@,
        Error::TemplateUsedForTemplate => "Cannot create a template with a template"@,
        Error::UrlParse(reason) => reason@,
    }
}

fn around(before: &str, middle: &str, after: &str) -> (text: String)
    ensures
        text@ == before@ + middle@ + after@,
{
    let mut out: Vec<char> = Vec::new();
    push_str(&mut out, before);
    push_str(&mut out, middle);
    push_str(&mut out, after);
    from_chars(&out)
}

fn prefixed(before: &str, text: &str) -> (result: String)
    ensures
        result@ == before@ + text@,
{
    let mut out: Vec<char> = Vec::new();
    push_str(&mut out, before);
    push_str(&mut out, text);
    from_chars(&out)
}

fn push_code(out: &mut Vec<char>, code: &Option<i32>)
    ensures
        final(out)@ == old(out)@ + code_text(*code),
{
    match code {
        Some(c) => {
            let wide: i64 = *c as i64;
            if wide < 0 {
                out.push('-');
                push_decimal(out, (-wide) as u128);
                assert(out@ =~= old(out)@ + signed_decimal(*c as int));
            } else {
                push_decimal(out, wide as u128);
            }
        },
        None => {
            push_str(out, "none");
        },
    }
}

impl Error {
    /// The message of the error.
    pub fn message(&self) -> (text: String)
        ensures
            text@ == message_text(*self),
    {
        match self {
            Error::CommandFailure { code, stderr } => {
                let mut out: Vec<char> = Vec::new();
                push_str(&mut out, "Command failed with code ");
                push_code(&mut out, code);
                match stderr {
                    Some(bytes) => {
                        push_str(&mut out, ": ");
                        let text = lossy_text(bytes);
                        push_str(&mut out, text.as_str());
                    },
                    None => {},
                }
                assert(out@ =~= message_text(*self));
                from_chars(&out)
            },
            Error::InvalidServerSession(s) => around("Invalid server session: `", s.as_str(), "`"),
            Error::InvalidServersDirectory => "Invalid servers directory".to_owned(),
            Error::InvalidTimestampFile(s) => around("Timestamp file (", s.as_str(), ") is invalid"),
            Error::MissingDirectory { dir } => prefixed("Missing directory: ", dir.as_str()),
            Error::MissingFile { file } => prefixed("Missing file: ", file.as_str()),
            Error::NoDefaultServer => "There is no default server".to_owned(),
            Error::NoRconConfig => {
                "Rcon config is not present, but required for remote connections".to_owned()
            },
            Error::NoServerChild => "No server child was given".to_owned(),
            Error::NoSessionName => "No session name found".to_owned(),
            Error::PlatformsNotFound(s) => prefixed("Platforms not found: ", s.as_str()),
            Error::ConfigMutexPoisoned => "The configuration mutex has been poisoned".to_owned(),
            Error::MissingRconConfig(s) => {
                prefixed("Rcon config is missing for server: ", s.as_str())
            },
            Error::ServerAlreadyExists(s) => around("Server ", s.as_str(), " already exists"),
            Error::TimeWentBackwards => "The machine's local time went backwards".to_owned(),
            Error::ServerNotFound(s) => around("Server ", s.as_str(), " was not found"),
            Error::TemplateAlreadyExists(s) => around("Template ", s.as_str(), " already exists"),
            Error::TemplateDeployed => "Template servers cannot be deployed".to_owned(),
            Error::TemplateNotFound(s) => {
                around("Template with the name ", s.as_str(), " was not found")
            },
            Error::TemplateUsedForTemplate => "Cannot create a template with a template".to_owned(),
            Error::UrlParse(reason) => reason.clone(),
        }
    }
}

} // verus!
