//! Configuration that is fixed when the engine is built. What the user can change
//! at run time is in the settings.

use vstd::prelude::*;
use vstd::string::*;

use crate::error::Error;
use crate::text::chars;
use crate::text::number;
use crate::text::search;
use crate::text::words;

verus! {

/// Which interfaces the listeners are bound to at startup.
#[derive(Debug, Clone, Copy, PartialEq, Eq, Structural)]
pub enum BindHost {
    /// `127.0.0.1`, the default.
    Loopback,
    /// `0.0.0.0`, by choice only.
    AllInterfaces,
}

impl BindHost {
    /// The four octets of the IPv4 address.
    pub fn as_ip(self) -> (r: [u8; 4])
        ensures
            r@ == match self {
                BindHost::Loopback => seq![127u8, 0u8, 0u8, 1u8],
                BindHost::AllInterfaces => seq![0u8, 0u8, 0u8, 0u8],
            },
    {
        match self {
            BindHost::Loopback => {
                let r: [u8; 4] = [127, 0, 0, 1];
                assert(r@ =~= seq![127u8, 0u8, 0u8, 1u8]);
                r
            },
            BindHost::AllInterfaces => {
                let r: [u8; 4] = [0, 0, 0, 0];
                assert(r@ =~= seq![0u8, 0u8, 0u8, 0u8]);
                r
            },
        }
    }
}

impl BindHost {
    /// The host that an address asks for: anything but the address of all interfaces
    /// is the loopback.
    pub fn from_address(address: &str) -> (r: Self)
        ensures
            r == if address@ == "0.0.0.0"@ {
                BindHost::AllInterfaces
            } else {
                BindHost::Loopback
            },
    {
        if chars::str_eq(address, "0.0.0.0") {
            BindHost::AllInterfaces
        } else {
            BindHost::Loopback
        }
    }

    /// The address as text.
    pub open spec fn address(self) -> Seq<char> {
        match self {
            BindHost::Loopback => "127.0.0.1"@,
            BindHost::AllInterfaces => "0.0.0.0"@,
        }
    }

    /// The address as text.
    pub fn as_str(self) -> (r: &'static str)
        ensures
            r@ == self.address(),
    {
        match self {
            BindHost::Loopback => "127.0.0.1",
            BindHost::AllInterfaces => "0.0.0.0",
        }
    }
}

/// What an engine in a pipeline tells its environment once it is ready.
pub open spec fn is_ready_text(
    lines: Seq<Seq<char>>,
    host: BindHost,
    smtp: u16,
    http: u16,
    data_dir: Seq<char>,
) -> bool {
    &&& lines.len() == 4
    &&& lines[0] == "POSTCRATE_SMTP_HOST="@ + host.address()
    &&& lines[1] == "POSTCRATE_SMTP_PORT="@ + number::decimal(smtp as nat)
    &&& lines[2] == "POSTCRATE_API_URL=http://"@ + host.address() + ":"@ + number::decimal(
        http as nat,
    )
    &&& lines[3] == "POSTCRATE_DATA_DIR="@ + data_dir
}

/// The lines that an engine in a pipeline prints once it is ready: variables that a
/// shell can set.
pub fn ready_lines(host: BindHost, smtp: u16, http: u16, data_dir: &str) -> (r: Vec<String>)
    ensures
        is_ready_text(chars::seq_views(r@), host, smtp, http, data_dir@),
{
    let smtp_text: String = number::to_decimal(smtp as u64);
    let http_text: String = number::to_decimal(http as u64);
    let url: String = words::cat("POSTCRATE_API_URL=http://", host.as_str());
    let mut lines: Vec<String> = Vec::new();
    lines.push(words::cat("POSTCRATE_SMTP_HOST=", host.as_str()));
    lines.push(words::cat("POSTCRATE_SMTP_PORT=", smtp_text.as_str()));
    lines.push(words::cat3(url.as_str(), ":", http_text.as_str()));
    lines.push(words::cat("POSTCRATE_DATA_DIR=", data_dir));
    lines
}

/// The systems that differ in where applications keep their data.
#[derive(Debug, Clone, Copy, PartialEq, Eq, Structural)]
pub enum Platform {
    MacOs,
    Linux,
    Other,
}

/// The configuration of the engine.
#[derive(Debug)]
pub struct CoreConfig {
    pub data_dir: String,
    pub db_path: String,
    pub blobs_dir: String,
    pub default_smtp_port: u16,
    pub http_port: u16,
    pub bind_host: BindHost,
    pub max_message_bytes: u64,
    pub ephemeral_port_range: (u16, u16),
    /// The host name in the answer to `EHLO`.
    pub ehlo_hostname: String,
    /// The longest SMTP line, with its line end.
    pub smtp_max_line_bytes: usize,
    /// The size from which on message data goes to a temporary file.
    pub data_spill_bytes: usize,
    /// How many messages may wait between the SMTP sessions and the ingest worker.
    pub ingest_channel_capacity: usize,
}

impl Clone for CoreConfig {
    fn clone(&self) -> (r: Self)
        ensures
            r == *self,
    {
        CoreConfig {
            data_dir: self.data_dir.clone(),
            db_path: self.db_path.clone(),
            blobs_dir: self.blobs_dir.clone(),
            default_smtp_port: self.default_smtp_port,
            http_port: self.http_port,
            bind_host: self.bind_host,
            max_message_bytes: self.max_message_bytes,
            ephemeral_port_range: (self.ephemeral_port_range.0, self.ephemeral_port_range.1),
            ehlo_hostname: self.ehlo_hostname.clone(),
            smtp_max_line_bytes: self.smtp_max_line_bytes,
            data_spill_bytes: self.data_spill_bytes,
            ingest_channel_capacity: self.ingest_channel_capacity,
        }
    }
}

/// The name of something inside of `dir` can follow at once: there is nothing to
/// separate it from, or `dir` ends in what separates on one system or another.
pub open spec fn needs_no_separator(dir: Seq<char>) -> bool {
    dir.len() == 0 || dir.last() == '/' || dir.last() == '\\' || dir.last() == ':'
}

/// `path` is `name` inside of the directory `dir`: between the two stands a
/// separator, that of the system, unless the directory ends in one.
pub open spec fn is_inside(path: Seq<char>, dir: Seq<char>, name: Seq<char>) -> bool {
    ||| path == dir + "/"@ + name
    ||| path == dir + "\\"@ + name
    ||| path == dir + name && needs_no_separator(dir)
}

/// A relative path with forward separators and no drive.
pub open spec fn is_relative(name: Seq<char>) -> bool {
    &&& name.len() > 0
    &&& name[0] != '/'
    &&& forall|i: int| 0 <= i < name.len() ==> #[trigger] name[i] != '\\' && name[i] != ':'
}

/// `Path::join`, as text: a relative path is put behind the directory, with the
/// system's separator where one is needed. Of the Windows paths that start with
/// `\\?\` nothing is claimed, since joining rewrites them.
#[verifier::external_body]
fn join(dir: &str, name: &str) -> (r: String)
    requires
        is_relative(name@),
    ensures
        !search::starts_with(dir@, "\\\\?\\"@) ==> is_inside(r@, dir@, name@),
{
    std::path::Path::new(dir).join(name).to_string_lossy().into_owned()
}

/// The path of a name in a directory, for directories of which joining keeps the
/// text.
pub open spec fn joined_path(path: Seq<char>, dir: Seq<char>, name: Seq<char>) -> bool {
    !search::starts_with(dir, "\\\\?\\"@) ==> is_inside(path, dir, name)
}

/// Where an application keeps its data by default: the directory that is asked
/// for and the name below it.
pub open spec fn default_place(
    platform: Platform,
    home: Option<Seq<char>>,
    xdg_data_home: Option<Seq<char>>,
    appdata: Option<Seq<char>>,
) -> Option<(Seq<char>, Seq<char>)> {
    match (home, platform, xdg_data_home, appdata) {
        (Some(h), Platform::MacOs, _, _) => Some((h, "Library/Application Support/Postcrate"@)),
        (Some(_), Platform::Linux, Some(x), _) => Some((x, "postcrate"@)),
        (Some(h), Platform::Linux, None, _) => Some((h, ".local/share/postcrate"@)),
        (Some(h), Platform::Other, _, _) => Some((h, ".postcrate"@)),
        (None, _, _, Some(a)) => Some((a, "Postcrate"@)),
        (None, _, _, None) => None,
    }
}

/// The characters of an optional string slice.
pub open spec fn opt_str(s: Option<&str>) -> Option<Seq<char>> {
    match s {
        Some(t) => Some(t@),
        None => None,
    }
}

impl CoreConfig {
    /// The default configuration for a data directory.
    pub fn for_data_dir(data_dir: String) -> (r: Result<Self, Error>)
        ensures
            r matches Ok(c) && {
                &&& c.data_dir@ == data_dir@
                &&& joined_path(c.db_path@, data_dir@, "postcrate.sqlite"@)
                &&& joined_path(c.blobs_dir@, data_dir@, "blobs"@)
                &&& c.default_smtp_port == 1025
                &&& c.http_port == 1080
                &&& c.bind_host == BindHost::Loopback
                &&& c.max_message_bytes == 50 * 1024 * 1024
                &&& c.ephemeral_port_range == (1100u16, 1199u16)
                &&& c.ehlo_hostname@ == "postcrate.local"@
                &&& c.smtp_max_line_bytes == 1000
                &&& c.data_spill_bytes == 256 * 1024
                &&& c.ingest_channel_capacity == 1024
            },
    {
        proof {
            reveal_strlit("postcrate.sqlite");
            reveal_strlit("blobs");
        }
        let db_path: String = join(data_dir.as_str(), "postcrate.sqlite");
        let blobs_dir: String = join(data_dir.as_str(), "blobs");
        Ok(
            CoreConfig {
                data_dir,
                db_path,
                blobs_dir,
                default_smtp_port: 1025,
                http_port: 1080,
                bind_host: BindHost::Loopback,
                max_message_bytes: 50 * 1024 * 1024,
                ephemeral_port_range: (1100, 1199),
                ehlo_hostname: "postcrate.local".to_owned(),
                smtp_max_line_bytes: 1000,
                data_spill_bytes: 256 * 1024,
                ingest_channel_capacity: 1024,
            },
        )
    }

    /// The default data directory, out of the platform and the environment: `HOME`,
    /// `XDG_DATA_HOME` and `APPDATA`.
    pub fn default_data_dir(
        platform: Platform,
        home: Option<&str>,
        xdg_data_home: Option<&str>,
        appdata: Option<&str>,
    ) -> (r: Result<String, Error>)
        ensures
            match default_place(
                platform,
                opt_str(home),
                opt_str(xdg_data_home),
                opt_str(appdata),
            ) {
                Some((dir, name)) => r matches Ok(p) && joined_path(p@, dir, name),
                None => r matches Err(Error::Internal(m)) && m@
                    == "could not resolve a default data directory; pass one explicitly"@,
            },
    {
        proof {
            reveal_strlit("Library/Application Support/Postcrate");
            reveal_strlit("postcrate");
            reveal_strlit(".local/share/postcrate");
            reveal_strlit(".postcrate");
            reveal_strlit("Postcrate");
        }
        if let Some(h) = home {
            return match platform {
                Platform::MacOs => Ok(join(h, "Library/Application Support/Postcrate")),
                Platform::Linux => match xdg_data_home {
                    Some(x) => Ok(join(x, "postcrate")),
                    None => Ok(join(h, ".local/share/postcrate")),
                },
                Platform::Other => Ok(join(h, ".postcrate")),
            };
        }
        match appdata {
            Some(a) => Ok(join(a, "Postcrate")),
            None => Err(
                Error::Internal(
                    "could not resolve a default data directory; pass one explicitly".to_owned(),
                ),
            ),
        }
    }

    /// The directory of the raw messages.
    pub fn raw_dir(&self) -> (r: String)
        ensures
            joined_path(r@, self.blobs_dir@, "raw"@),
    {
        proof {
            reveal_strlit("raw");
        }
        join(self.blobs_dir.as_str(), "raw")
    }

    /// The directory of the messages that are being received.
    pub fn incoming_dir(&self) -> (r: String)
        ensures
            exists|raw: Seq<char>| #[trigger]
                joined_path(raw, self.blobs_dir@, "raw"@) && joined_path(r@, raw, "incoming"@),
    {
        proof {
            reveal_strlit("incoming");
        }
        join(self.raw_dir().as_str(), "incoming")
    }

    /// The directory of the attachments.
    pub fn att_dir(&self) -> (r: String)
        ensures
            joined_path(r@, self.blobs_dir@, "att"@),
    {
        proof {
            reveal_strlit("att");
        }
        join(self.blobs_dir.as_str(), "att")
    }

    /// The directories that have to exist, outer ones before inner ones.
    pub fn ensure_dirs(&self) -> (r: Vec<String>)
        ensures
            r@.len() == 5,
            r@[0]@ == self.data_dir@,
            r@[1]@ == self.blobs_dir@,
            joined_path(r@[2]@, self.blobs_dir@, "raw"@),
            exists|raw: Seq<char>| #[trigger]
                joined_path(raw, self.blobs_dir@, "raw"@) && joined_path(
                    r@[3]@,
                    raw,
                    "incoming"@,
                ),
            joined_path(r@[4]@, self.blobs_dir@, "att"@),
    {
        let mut dirs: Vec<String> = Vec::new();
        dirs.push(self.data_dir.clone());
        dirs.push(self.blobs_dir.clone());
        dirs.push(self.raw_dir());
        dirs.push(self.incoming_dir());
        dirs.push(self.att_dir());
        dirs
    }
}

/// Where an application keeps its data: below the home directory or what stands for it,
/// under a name that is usual on the platform; without a home, below the application data;
/// nowhere without either.
pub proof fn law_default_place(
    home: Seq<char>,
    xdg: Option<Seq<char>>,
    appdata: Option<Seq<char>>,
    platform: Platform,
    x: Seq<char>,
)
    ensures
        default_place(Platform::MacOs, Some(home), xdg, appdata) == Some(
            (home, "Library/Application Support/Postcrate"@),
        ),
        default_place(Platform::Linux, Some(home), Some(x), appdata) == Some((x, "postcrate"@)),
        default_place(Platform::Linux, Some(home), None, appdata) == Some(
            (home, ".local/share/postcrate"@),
        ),
        default_place(Platform::Other, Some(home), xdg, appdata) == Some((home, ".postcrate"@)),
        default_place(platform, None, xdg, Some(x)) == Some((x, "Postcrate"@)),
        default_place(platform, None, xdg, None) is None,
{
}

/// What a pipeline is told: where SMTP is spoken, where the API is, and where the data are.
pub proof fn law_ready_text(
    lines: Seq<Seq<char>>,
    host: BindHost,
    smtp: u16,
    http: u16,
    data_dir: Seq<char>,
)
    requires
        is_ready_text(lines, host, smtp, http, data_dir),
    ensures
        ({
            let address = if host is Loopback {
                "127.0.0.1"@
            } else {
                "0.0.0.0"@
            };
            &&& lines.len() == 4
            &&& lines[0] == "POSTCRATE_SMTP_HOST="@ + address
            &&& lines[1] == "POSTCRATE_SMTP_PORT="@ + number::decimal(smtp as nat)
            &&& lines[2] == "POSTCRATE_API_URL=http://"@ + address + ":"@ + number::decimal(
                http as nat,
            )
            &&& lines[3] == "POSTCRATE_DATA_DIR="@ + data_dir
        }),
{
}

/// Something inside of a directory keeps the directory's text in front and its own name
/// behind, with at most one character between them; that character is there wherever the
/// directory does not end in a separator.
pub proof fn law_inside(path: Seq<char>, dir: Seq<char>, name: Seq<char>)
    requires
        is_inside(path, dir, name),
    ensures
        path.len() >= dir.len() + name.len(),
        path.len() <= dir.len() + 1 + name.len(),
        path.take(dir.len() as int) == dir,
        path.skip(path.len() - name.len()) == name,
        dir.len() > 0 && dir.last() != '/' && dir.last() != '\\' && dir.last() != ':' ==> path.len()
            == dir.len() + 1 + name.len() && (path[dir.len() as int] == '/' || path[dir.len() as int]
            == '\\'),
{
    reveal_strlit("/");
    reveal_strlit("\\");
    assert(path.take(dir.len() as int) =~= dir);
    assert(path.skip(path.len() - name.len()) =~= name);
}

} // verus!
