//! The credential request of the calling tool: lines of `key=value`.

use crate::error::Error;
use crate::text::{copy_text, find_char, first_index, split, split_text, text_is, text_of, views};
use vstd::prelude::*;
use vstd::string::*;

verus! {

/// A credential request or reply: the attributes that the calling tool
/// names, each present or absent.
#[derive(Debug)]
pub struct GitCredentialMessage {
    pub protocol: Option<String>,
    pub host: Option<String>,
    pub path: Option<String>,
    pub username: Option<String>,
    pub password: Option<String>,
    pub url: Option<String>,
}

/// What a [`GitCredentialMessage`] holds.
pub ghost struct GitCredentialMessageView {
    pub protocol: Option<Seq<char>>,
    pub host: Option<Seq<char>>,
    pub path: Option<Seq<char>>,
    pub username: Option<Seq<char>>,
    pub password: Option<Seq<char>>,
    pub url: Option<Seq<char>>,
}

impl View for GitCredentialMessage {
    type V = GitCredentialMessageView;

    open spec fn view(&self) -> GitCredentialMessageView {
        GitCredentialMessageView {
            protocol: text_of(self.protocol),
            host: text_of(self.host),
            path: text_of(self.path),
            username: text_of(self.username),
            password: text_of(self.password),
            url: text_of(self.url),
        }
    }
}

impl Clone for GitCredentialMessage {
    fn clone(&self) -> (copy: Self)
        ensures
            copy == *self,
    {
        GitCredentialMessage {
            protocol: copy_text(&self.protocol),
            host: copy_text(&self.host),
            path: copy_text(&self.path),
            username: copy_text(&self.username),
            password: copy_text(&self.password),
            url: copy_text(&self.url),
        }
    }
}

/// The message that names nothing.
pub open spec fn empty_message() -> GitCredentialMessageView {
    GitCredentialMessageView {
        protocol: None,
        host: None,
        path: None,
        username: None,
        password: None,
        url: None,
    }
}

impl GitCredentialMessage {
    /// The message that names nothing.
    pub fn new() -> (message: GitCredentialMessage)
        ensures
            message@ == empty_message(),
    {
        GitCredentialMessage {
            protocol: None,
            host: None,
            path: None,
            username: None,
            password: None,
            url: None,
        }
    }
}

/// The message after one more line has been read. An empty line says
/// nothing. Any other line is a key, an equals sign and a value; the value
/// is what follows the first equals sign. A known key sets its attribute,
/// also where it was set before; an unknown key is passed over. A line
/// without an equals sign is not a line of a credential request.
pub open spec fn with_line(message: GitCredentialMessageView, line: Seq<char>) -> Option<
    GitCredentialMessageView,
> {
    let at = first_index(line, '=');
    if line.len() == 0 {
        Some(message)
    } else if !(0 <= at < line.len()) {
        None
    } else {
        let key = line.take(at);
        let value = Some(line.skip(at + 1));
        Some(
            if key == "protocol"@ {
                GitCredentialMessageView { protocol: value, ..message }
            } else if key == "host"@ {
                GitCredentialMessageView { host: value, ..message }
            } else if key == "path"@ {
                GitCredentialMessageView { path: value, ..message }
            } else if key == "username"@ {
                GitCredentialMessageView { username: value, ..message }
            } else if key == "password"@ {
                GitCredentialMessageView { password: value, ..message }
            } else if key == "url"@ {
                GitCredentialMessageView { url: value, ..message }
            } else {
                message
            },
        )
    }
}

/// The message that a sequence of lines gives, read from the first to the
/// last.
pub open spec fn message_of_lines(lines: Seq<Seq<char>>) -> Option<GitCredentialMessageView>
    decreases lines.len(),
{
    if lines.len() == 0 {
        Some(empty_message())
    } else {
        match message_of_lines(lines.drop_last()) {
            Some(message) => with_line(message, lines.last()),
            None => None,
        }
    }
}

/// The message that a text gives: that of its lines, which end at every
/// line feed.
pub open spec fn parsed_message(text: Seq<char>) -> Option<GitCredentialMessageView> {
    message_of_lines(split(text, '\n'))
}

/// The line that names an attribute, if the attribute is present.
pub open spec fn attribute_line(key: Seq<char>, value: Option<Seq<char>>) -> Seq<char> {
    match value {
        Some(v) => key + v + "\n"@,
        None => Seq::empty(),
    }
}

/// The text of a message: a line for each attribute that is present.
pub open spec fn message_text(message: GitCredentialMessageView) -> Seq<char> {
    attribute_line("protocol="@, message.protocol) + attribute_line("host="@, message.host)
        + attribute_line("path="@, message.path) + attribute_line("username="@, message.username)
        + attribute_line("password="@, message.password) + attribute_line("url="@, message.url)
}

/// The URL that a credential request is about: the one it names, or else
/// the one that its protocol, host and path make up. A request that names
/// neither a URL nor both protocol and host is about none.
pub open spec fn resolved_url(message: GitCredentialMessageView) -> Result<Seq<char>, Error> {
    match message.url {
        Some(url) => Ok(url),
        None => if message.protocol is None || message.host is None {
            Err(Error::MalformedCredentialRequest)
        } else {
            Ok(
                message.protocol->0 + "://"@ + message.host->0 + "/"@ + match message.path {
                    Some(path) => path,
                    None => Seq::empty(),
                },
            )
        },
    }
}

/// Appends the line of an attribute to a text.
fn push_attribute(text: &mut String, key: &str, value: &Option<String>)
    ensures
        final(text)@ == old(text)@ + attribute_line(key@, text_of(*value)),
{
    match value {
        Some(v) => {
            let ghost before = text@;
            text.append(key);
            text.append(v.as_str());
            text.append("\n");
            assert(text@ =~= before + (key@ + v@ + "\n"@));
        },
        None => {
            assert(text@ + Seq::<char>::empty() =~= text@);
        },
    }
}

impl GitCredentialMessage {
    /// Reads a message from its text.
    pub fn from_str(text: &str) -> (message: Result<GitCredentialMessage, Error>)
        ensures
            match parsed_message(text@) {
                Some(expected) => message is Ok && message->Ok_0@ == expected,
                None => message == Err::<GitCredentialMessage, Error>(
                    Error::MalformedCredentialRequest,
                ),
            },
    {
        let lines = split_text(text, '\n');
        let mut message = GitCredentialMessage::new();
        let mut i: usize = 0;
        proof {
            assert(views(lines@).take(0) =~= Seq::<Seq<char>>::empty());
        }
        while i < lines.len()
            invariant
                i <= lines.len(),
                views(lines@) == split(text@, '\n'),
                message_of_lines(views(lines@).take(i as int)) == Some(message@),
            decreases lines.len() - i,
        {
            let ghost so_far = views(lines@).take(i as int);
            let ghost before = message@;
            let line = lines[i].as_str();
            proof {
                assert(views(lines@).take(i + 1).drop_last() =~= so_far);
                assert(views(lines@).take(i + 1).last() == line@);
                assert(line@.skip(0) =~= line@);
            }
            let len: usize = line.unicode_len();
            if len > 0 {
                let at: usize = find_char(line, '=', 0, len);
                if at >= len {
                    proof {
                        let rest = views(lines@);
                        lemma_bad_line_spoils(rest, i + 1);
                        assert(rest.take(rest.len() as int) =~= rest);
                    }
                    return Err(Error::MalformedCredentialRequest);
                }
                let key = String::from_str(line.substring_char(0, at));
                let value = String::from_str(line.substring_char(at + 1, len));
                proof {
                    assert(key@ =~= line@.take(at as int));
                    assert(value@ =~= line@.skip(at + 1));
                }
                if text_is(&key, "protocol") {
                    message.protocol = Some(value);
                } else if text_is(&key, "host") {
                    message.host = Some(value);
                } else if text_is(&key, "path") {
                    message.path = Some(value);
                } else if text_is(&key, "username") {
                    message.username = Some(value);
                } else if text_is(&key, "password") {
                    message.password = Some(value);
                } else if text_is(&key, "url") {
                    message.url = Some(value);
                }
            }
            proof {
                assert(with_line(before, line@) == Some(message@));
            }
            i = i + 1;
        }
        proof {
            assert(views(lines@).take(lines@.len() as int) =~= views(lines@));
        }
        Ok(message)
    }

    /// Writes the message as text: a line for each attribute that is
    /// present.
    pub fn to_string(&self) -> (text: String)
        ensures
            text@ == message_text(self@),
    {
        let mut text = String::new();
        proof {
            assert(text@ + attribute_line("protocol="@, self@.protocol) =~= attribute_line(
                "protocol="@,
                self@.protocol,
            ));
        }
        push_attribute(&mut text, "protocol=", &self.protocol);
        push_attribute(&mut text, "host=", &self.host);
        push_attribute(&mut text, "path=", &self.path);
        push_attribute(&mut text, "username=", &self.username);
        push_attribute(&mut text, "password=", &self.password);
        push_attribute(&mut text, "url=", &self.url);
        text
    }

    /// The URL that the request is about.
    pub fn resolve_url(&self) -> (url: Result<String, Error>)
        ensures
            match resolved_url(self@) {
                Ok(expected) => url is Ok && url->Ok_0@ == expected,
                Err(e) => url == Err::<String, Error>(e),
            },
    {
        match &self.url {
            Some(url) => Ok(url.clone()),
            None => {
                let protocol = match &self.protocol {
                    Some(protocol) => protocol,
                    None => {
                        return Err(Error::MalformedCredentialRequest);
                    },
                };
                let host = match &self.host {
                    Some(host) => host,
                    None => {
                        return Err(Error::MalformedCredentialRequest);
                    },
                };
                let mut url = protocol.clone();
                url.append("://");
                url.append(host.as_str());
                url.append("/");
                match &self.path {
                    Some(path) => {
                        url.append(path.as_str());
                    },
                    None => {
                        assert(url@ + Seq::<char>::empty() =~= url@);
                    },
                }
                Ok(url)
            },
        }
    }
}

/// Once the lines read so far give no message, no further line mends that.
pub proof fn lemma_bad_line_spoils(lines: Seq<Seq<char>>, upto: int)
    requires
        0 <= upto <= lines.len(),
        message_of_lines(lines.take(upto)) is None,
    ensures
        message_of_lines(lines) is None,
    decreases lines.len() - upto,
{
    if upto == lines.len() {
        assert(lines.take(upto) =~= lines);
    } else {
        assert(lines.take(upto + 1).drop_last() =~= lines.take(upto));
        lemma_bad_line_spoils(lines, upto + 1);
    }
}

/// Reads a credential request and finds the URL that it is about.
pub fn read_git_request(input: &str) -> (request: Result<(GitCredentialMessage, String), Error>)
    ensures
        match parsed_message(input@) {
            None => request == Err::<(GitCredentialMessage, String), Error>(
                Error::MalformedCredentialRequest,
            ),
            Some(message) => match resolved_url(message) {
                Err(e) => request == Err::<(GitCredentialMessage, String), Error>(e),
                Ok(url) => request is Ok && request->Ok_0.0@ == message && request->Ok_0.1@ == url,
            },
        },
{
    let git_req = match GitCredentialMessage::from_str(input) {
        Ok(git_req) => git_req,
        Err(e) => {
            return Err(e);
        },
    };
    match git_req.resolve_url() {
        Ok(url) => Ok((git_req, url)),
        Err(e) => Err(e),
    }
}

} // verus!
