//! The upload primitive: one FTP session per file — connect,
//! authenticate, set binary mode, send the whole file, quit.  The
//! transfer is atomic: either every byte is sent or the attempt fails.

use vstd::prelude::*;
use vstd::string::StringExecFns;

use crate::discovery::DBI_FTP_PORT;
use crate::manager::GameFile;
use crate::text::dec_chars;
use crate::text::fmt_u64;

verus! {

/// Why an upload failed.  Each variant carries the underlying client
/// error text verbatim.
#[derive(Debug)]
pub enum UploadError {
    /// Could not connect to the FTP server.
    Connect(String),
    /// The file to send could not be read from disk.
    LocalFile(String),
    /// The server rejected the login.
    Login(String),
    /// The server rejected binary transfer mode.
    BinaryMode(String),
    /// Sending the file contents failed.
    Upload(String),
}

/// Abstract value of an `UploadError`.
#[verifier::ext_equal]
pub ghost enum UploadErrorView {
    Connect(Seq<char>),
    LocalFile(Seq<char>),
    Login(Seq<char>),
    BinaryMode(Seq<char>),
    Upload(Seq<char>),
}

impl View for UploadError {
    type V = UploadErrorView;

    open spec fn view(&self) -> UploadErrorView {
        match self {
            UploadError::Connect(e) => UploadErrorView::Connect(e@),
            UploadError::LocalFile(e) => UploadErrorView::LocalFile(e@),
            UploadError::Login(e) => UploadErrorView::Login(e@),
            UploadError::BinaryMode(e) => UploadErrorView::BinaryMode(e@),
            UploadError::Upload(e) => UploadErrorView::Upload(e@),
        }
    }
}

impl UploadErrorView {
    /// The failure text published with a transfer-error event: a fixed
    /// prefix naming the failed step, then the client error verbatim.
    pub open spec fn message_spec(self) -> Seq<char> {
        match self {
            UploadErrorView::Connect(e) => "Failed to connect to FTP server: "@ + e,
            UploadErrorView::LocalFile(e) => "Failed to open local file: "@ + e,
            UploadErrorView::Login(e) => "FTP login failed: "@ + e,
            UploadErrorView::BinaryMode(e) => "Failed to set binary mode: "@ + e,
            UploadErrorView::Upload(e) => "FTP upload failed: "@ + e,
        }
    }
}

impl UploadError {
    /// Renders the failure text, as `message_spec` describes.
    pub fn message(&self) -> (r: String)
        ensures
            r@ == self@.message_spec(),
    {
        match self {
            UploadError::Connect(e) => {
                let mut s = "Failed to connect to FTP server: ".to_owned();
                s.append(e.as_str());
                s
            },
            UploadError::LocalFile(e) => {
                let mut s = "Failed to open local file: ".to_owned();
                s.append(e.as_str());
                s
            },
            UploadError::Login(e) => {
                let mut s = "FTP login failed: ".to_owned();
                s.append(e.as_str());
                s
            },
            UploadError::BinaryMode(e) => {
                let mut s = "Failed to set binary mode: ".to_owned();
                s.append(e.as_str());
                s
            },
            UploadError::Upload(e) => {
                let mut s = "FTP upload failed: ".to_owned();
                s.append(e.as_str());
                s
            },
        }
    }
}

/// Relies on suppaftp's `FtpStream`: `connect` on the given address,
/// `login`, `transfer_type` with binary mode, `put_file` — which sends the
/// reader's whole contents through `std::io::copy` and returns the byte
/// count, so `Ok` carries exactly `contents`' length — and `quit`, whose
/// errors are ignored as the session is over.  The connection handle
/// never leaves this function.  Outcomes depend on the network, so
/// nothing is promised about when each variant occurs.
#[verifier::external_body]
fn ftp_upload(addr: &String, user: &str, pass: &str, file_name: &String, contents: &Vec<u8>) -> (r:
    Result<u64, UploadError>)
    ensures
        r matches Ok(n) ==> n == contents@.len(),
{
    let mut ftp = suppaftp::FtpStream::connect(addr.as_str())
        .map_err(|e| UploadError::Connect(format!("{e}")))?;
    ftp.login(user, pass).map_err(|e| UploadError::Login(format!("{e}")))?;
    ftp.transfer_type(suppaftp::types::FileType::Binary)
        .map_err(|e| UploadError::BinaryMode(format!("{e}")))?;
    let mut cursor = std::io::Cursor::new(contents.as_slice());
    let r = ftp.put_file(file_name.as_str(), &mut cursor)
        .map_err(|e| UploadError::Upload(format!("{e}")));
    let _ = ftp.quit();
    r
}

/// Uploads `contents` as `game_file`'s file name to the FTP service on
/// `ftp_ip`.  On success the whole file was sent and the byte count is
/// returned; on failure the error names the step that failed and carries
/// the client error verbatim.  No partial transfer is ever reported as
/// success.
pub fn transfer_file(game_file: &GameFile, ftp_ip: &String, contents: &Vec<u8>) -> (r: Result<
    u64,
    UploadError,
>)
    ensures
        r matches Ok(n) ==> n == contents@.len(),
{
    let mut addr = ftp_ip.clone();
    addr.append(":");
    addr.append(fmt_u64(DBI_FTP_PORT as u64).as_str());
    proof {
        assert(addr@ == ftp_ip@ + ":"@ + dec_chars(DBI_FTP_PORT as int));
    }
    ftp_upload(&addr, "anonymous", "anonymous", &game_file.file_name, contents)
}

} // verus!
