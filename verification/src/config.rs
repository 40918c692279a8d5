//! The simple configuration form: its defaults, the frpc TOML it writes,
//! and how it takes values back from a TOML document.
use vstd::prelude::*;
use crate::text::{
    ascii_lowercased, decimal, digits, format_i64, format_u64, is_blank, lemma_digits_trimmed,
    lemma_trimmed_idempotent, lemma_u16_decimal_round_trip, parse_u16,
    parse_u16_spec, push_char, to_ascii_lowercase, trim, trim_end, trim_start, trimmed,
};
use crate::toml_doc::{parse_toml, toml_document, TomlValue};

verus! {

/// The eight text fields of the simple form, each as it is edited: ports
/// are kept as text and only read as numbers when the TOML is written.
#[derive(Clone)]
pub struct SimpleConfigForm {
    pub server_addr: String,
    pub server_port: String,
    pub auth_token: String,
    pub proxy_name: String,
    pub proxy_type: String,
    pub local_ip: String,
    pub local_port: String,
    pub remote_port: String,
}

/// The contents of a `SimpleConfigForm`.
#[verifier::ext_equal]
pub struct FormFields {
    pub server_addr: Seq<char>,
    pub server_port: Seq<char>,
    pub auth_token: Seq<char>,
    pub proxy_name: Seq<char>,
    pub proxy_type: Seq<char>,
    pub local_ip: Seq<char>,
    pub local_port: Seq<char>,
    pub remote_port: Seq<char>,
}

impl View for SimpleConfigForm {
    type V = FormFields;

    open spec fn view(&self) -> FormFields {
        FormFields {
            server_addr: self.server_addr@,
            server_port: self.server_port@,
            auth_token: self.auth_token@,
            proxy_name: self.proxy_name@,
            proxy_type: self.proxy_type@,
            local_ip: self.local_ip@,
            local_port: self.local_port@,
            remote_port: self.remote_port@,
        }
    }
}

/// The form a fresh launcher shows: a Minecraft TCP mapping of local port
/// 25565 through a server on port 7000.
pub open spec fn default_form() -> FormFields {
    FormFields {
        server_addr: Seq::empty(),
        server_port: "7000"@,
        auth_token: Seq::empty(),
        proxy_name: "minecraft"@,
        proxy_type: "tcp"@,
        local_ip: "127.0.0.1"@,
        local_port: "25565"@,
        remote_port: "25565"@,
    }
}

impl Default for SimpleConfigForm {
    fn default() -> (r: Self)
        ensures
            r@ == default_form(),
    {
        SimpleConfigForm {
            server_addr: String::new(),
            server_port: String::from_str("7000"),
            auth_token: String::new(),
            proxy_name: String::from_str("minecraft"),
            proxy_type: String::from_str("tcp"),
            local_ip: String::from_str("127.0.0.1"),
            local_port: String::from_str("25565"),
            remote_port: String::from_str("25565"),
        }
    }
}

/// What a backslash and a double quote become inside a TOML basic string.
pub open spec fn escape_char(c: char) -> Seq<char> {
    if c == '\\' {
        seq!['\\', '\\']
    } else if c == '"' {
        seq!['\\', '"']
    } else {
        seq![c]
    }
}

/// `s` with every backslash and double quote escaped by a backslash.
pub open spec fn escaped(s: Seq<char>) -> Seq<char>
    decreases s.len(),
{
    if s.len() == 0 {
        Seq::empty()
    } else {
        escape_char(s[0]) + escaped(s.drop_first())
    }
}

/// Reads the escapes `\\` and `\"` of a TOML basic string back.
pub open spec fn unescaped(s: Seq<char>) -> Seq<char>
    decreases s.len(),
{
    if s.len() == 0 {
        Seq::empty()
    } else if s.len() >= 2 && s[0] == '\\' && (s[1] == '\\' || s[1] == '"') {
        seq![s[1]] + unescaped(s.subrange(2, s.len() as int))
    } else {
        seq![s[0]] + unescaped(s.drop_first())
    }
}

proof fn lemma_escaped_push(s: Seq<char>, c: char)
    ensures
        escaped(s.push(c)) == escaped(s) + escape_char(c),
    decreases s.len(),
{
    if s.len() == 0 {
        assert(s.push(c).drop_first() =~= Seq::<char>::empty());
        assert(escaped(Seq::<char>::empty()) == Seq::<char>::empty());
        assert(escaped(s.push(c)) == escape_char(c) + Seq::<char>::empty());
    } else {
        lemma_escaped_push(s.drop_first(), c);
        assert(s.push(c).drop_first() == s.drop_first().push(c));
        assert(s.push(c)[0] == s[0]);
    }
}

/// Escaping a string and reading the escapes back gives the string again:
/// the value written between the quotes is the value that was in the form.
pub proof fn lemma_unescape_escaped(s: Seq<char>)
    ensures
        unescaped(escaped(s)) == s,
    decreases s.len(),
{
    if s.len() > 0 {
        lemma_unescape_escaped(s.drop_first());
        let e = escaped(s);
        let rest = escaped(s.drop_first());
        let c = s[0];
        if c == '\\' || c == '"' {
            assert(e == seq!['\\', c] + rest);
            assert(e.subrange(2, e.len() as int) == rest);
            assert(unescaped(e) == seq![c] + unescaped(rest));
        } else {
            assert(e == seq![c] + rest);
            assert(e.drop_first() == rest);
            assert(unescaped(e) == seq![c] + unescaped(rest));
        }
        assert(s == seq![c] + s.drop_first());
    }
}

/// Escapes backslashes and double quotes for a TOML basic string.
pub fn escape_toml_string(s: &str) -> (r: String)
    ensures
        r@ == escaped(s@),
{
    let mut out = String::new();
    for c in it: s.chars()
        invariant
            it.seq() == s@,
            out@ == escaped(s@.take(it.index() as int)),
    {
        proof {
            assert(s@.take(it.index() + 1) == s@.take(it.index() as int).push(c));
            lemma_escaped_push(s@.take(it.index() as int), c);
        }
        if c == '\\' {
            proof {
                reveal_strlit("\\\\");
            }
            out.append("\\\\");
        } else if c == '"' {
            proof {
                reveal_strlit("\\\"");
            }
            out.append("\\\"");
        } else {
            push_char(&mut out, c);
        }
    }
    proof {
        assert(s@.take(s@.len() as int) == s@);
    }
    out
}

/// The proxy type the form keeps: `udp` when the text, trimmed and in
/// lower case, is `udp`; `tcp` for anything else.
pub open spec fn normalized_proxy_type(value: Seq<char>) -> Seq<char> {
    if ascii_lowercased(trimmed(value)) == "udp"@ {
        "udp"@
    } else {
        "tcp"@
    }
}

/// Reduces a proxy type to `tcp` or `udp`.
pub fn normalize_proxy_type(value: &str) -> (r: String)
    ensures
        r@ == normalized_proxy_type(value@),
{
    let t = trim(value);
    let lower = to_ascii_lowercase(t.as_str());
    let udp = String::from_str("udp");
    if lower == udp {
        udp
    } else {
        String::from_str("tcp")
    }
}

/// The proxy type is always `tcp` or `udp`, and normalizing it again changes nothing.
pub proof fn lemma_normalize_proxy_type_stable(value: Seq<char>)
    ensures
        normalized_proxy_type(value) == "udp"@ || normalized_proxy_type(value) == "tcp"@,
        normalized_proxy_type(normalized_proxy_type(value)) == normalized_proxy_type(value),
{
    reveal_strlit("udp");
    reveal_strlit("tcp");
    let u = "udp"@;
    let t = "tcp"@;
    assert(trim_start(u) == u);
    assert(trim_end(u) == u);
    assert(trim_start(t) == t);
    assert(trim_end(t) == t);
    assert(ascii_lowercased(u) =~= u);
    assert(ascii_lowercased(t) =~= t);
    assert(ascii_lowercased(t) != u);
}

/// The port a text field stands for: its trimmed text read as a 16-bit
/// number, or `fallback` when it is not one.
pub open spec fn port_or(text: Seq<char>, fallback: u16) -> u16 {
    match parse_u16_spec(trimmed(text)) {
        Some(p) => p,
        None => fallback,
    }
}

/// The `auth` lines: present only when the token is not blank, and then
/// holding the trimmed token.
pub open spec fn auth_section(token: Seq<char>) -> Seq<char> {
    if is_blank(token) {
        Seq::empty()
    } else {
        "\n"@ + "auth.method = \"token\"\n"@ + "auth.token = \""@ + escaped(trimmed(token))
            + "\"\n"@
    }
}

/// The frpc configuration the form stands for: server address and port,
/// the token if any, and one `[[proxies]]` entry. An unreadable server port
/// becomes 7000; unreadable local and remote ports become 0.
pub open spec fn config_toml(f: FormFields) -> Seq<char> {
    "serverAddr = \""@ + escaped(f.server_addr) + "\"\n"@
        + "serverPort = "@ + digits(port_or(f.server_port, 7000) as nat) + "\n"@
        + auth_section(f.auth_token)
        + "\n"@ + "[[proxies]]\n"@
        + "name = \""@ + escaped(f.proxy_name) + "\"\n"@
        + "type = \""@ + escaped(f.proxy_type) + "\"\n"@
        + "localIP = \""@ + escaped(f.local_ip) + "\"\n"@
        + "localPort = "@ + digits(port_or(f.local_port, 0) as nat) + "\n"@
        + "remotePort = "@ + digits(port_or(f.remote_port, 0) as nat) + "\n"@
}

/// The string under `key` in `doc`, if there is one.
pub open spec fn str_at(doc: TomlValue, key: Seq<char>) -> Option<Seq<char>> {
    match doc.entry(key) {
        Some(v) => v.str_value(),
        None => None,
    }
}

/// The integer under `key` in `doc`, if there is one.
pub open spec fn int_at(doc: TomlValue, key: Seq<char>) -> Option<i64> {
    match doc.entry(key) {
        Some(v) => v.int_value(),
        None => None,
    }
}

/// The string under `key` in `item`, if there is such an item.
pub open spec fn item_str(item: Option<TomlValue>, key: Seq<char>) -> Option<Seq<char>> {
    match item {
        Some(v) => str_at(v, key),
        None => None,
    }
}

/// The integer under `key` in `item`, if there is such an item.
pub open spec fn item_int(item: Option<TomlValue>, key: Seq<char>) -> Option<i64> {
    match item {
        Some(v) => int_at(v, key),
        None => None,
    }
}

/// The first entry of the `proxies` array.
pub open spec fn first_proxy(doc: TomlValue) -> Option<TomlValue> {
    match doc.entry("proxies"@) {
        Some(v) => v.first_item(),
        None => None,
    }
}

/// `found` if present, else `current`.
pub open spec fn take_text(found: Option<Seq<char>>, current: Seq<char>) -> Seq<char> {
    match found {
        Some(s) => s,
        None => current,
    }
}

/// The decimal text of `found` if present, else `current`.
pub open spec fn take_number(found: Option<i64>, current: Seq<char>) -> Seq<char> {
    match found {
        Some(n) => decimal(n as int),
        None => current,
    }
}

/// The form after reading `doc`: each field that the document holds, with
/// the right type, at its frpc key replaces the form's value; the others
/// stay. Proxy fields come from the first `[[proxies]]` entry, and the
/// proxy type is normalized.
pub open spec fn applied_form(f: FormFields, doc: TomlValue) -> FormFields {
    let proxy = first_proxy(doc);
    let auth = doc.entry("auth"@);
    FormFields {
        server_addr: take_text(str_at(doc, "serverAddr"@), f.server_addr),
        server_port: take_number(int_at(doc, "serverPort"@), f.server_port),
        auth_token: take_text(item_str(auth, "token"@), f.auth_token),
        proxy_name: take_text(item_str(proxy, "name"@), f.proxy_name),
        proxy_type: match item_str(proxy, "type"@) {
            Some(t) => normalized_proxy_type(t),
            None => f.proxy_type,
        },
        local_ip: take_text(item_str(proxy, "localIP"@), f.local_ip),
        local_port: take_number(item_int(proxy, "localPort"@), f.local_port),
        remote_port: take_number(item_int(proxy, "remotePort"@), f.remote_port),
    }
}

/// The form after reading `text`: unchanged when the text is not TOML.
pub open spec fn form_after_reading(f: FormFields, text: Seq<char>) -> FormFields {
    match toml_document(text) {
        Ok(doc) => applied_form(f, doc),
        Err(_) => f,
    }
}

fn read_str(v: &TomlValue, key: &str) -> (r: Option<String>)
    ensures
        match r {
            Some(s) => str_at(*v, key@) == Some(s@),
            None => str_at(*v, key@) is None,
        },
{
    match v.get(key) {
        Some(x) => match x.as_str() {
            Some(s) => Some(s.clone()),
            None => None,
        },
        None => None,
    }
}

fn read_int(v: &TomlValue, key: &str) -> (r: Option<i64>)
    ensures
        r == int_at(*v, key@),
{
    match v.get(key) {
        Some(x) => x.as_integer(),
        None => None,
    }
}

impl SimpleConfigForm {
    /// Fills the form from TOML text; leaves it unchanged when the text does not parse.
    pub fn apply_from_toml(&mut self, text: &str)
        ensures
            final(self)@ == form_after_reading(old(self)@, text@),
    {
        match parse_toml(text) {
            Ok(doc) => self.apply_document(&doc),
            Err(_) => {},
        }
    }

    /// Takes from a TOML document every field it holds at the frpc keys.
    pub fn apply_document(&mut self, doc: &TomlValue)
        ensures
            final(self)@ == applied_form(old(self)@, *doc),
    {
        if let Some(s) = read_str(doc, "serverAddr") {
            self.server_addr = s;
        }
        if let Some(n) = read_int(doc, "serverPort") {
            self.server_port = format_i64(n);
        }
        if let Some(auth) = doc.get("auth") {
            if let Some(token) = read_str(auth, "token") {
                self.auth_token = token;
            }
        }
        let proxies = doc.get("proxies");
        let proxy = match proxies {
            Some(p) => p.first(),
            None => None,
        };
        proof {
            assert(match proxy {
                Some(p) => first_proxy(*doc) == Some(*p),
                None => first_proxy(*doc) is None,
            });
        }
        if let Some(proxy) = proxy {
            if let Some(name) = read_str(proxy, "name") {
                self.proxy_name = name;
            }
            if let Some(ty) = read_str(proxy, "type") {
                self.proxy_type = normalize_proxy_type(ty.as_str());
            }
            if let Some(ip) = read_str(proxy, "localIP") {
                self.local_ip = ip;
            }
            if let Some(p) = read_int(proxy, "localPort") {
                self.local_port = format_i64(p);
            }
            if let Some(p) = read_int(proxy, "remotePort") {
                self.remote_port = format_i64(p);
            }
        }
    }

    /// The frpc TOML configuration for the form.
    pub fn to_toml(&self) -> (r: String)
        ensures
            r@ == config_toml(self@),
    {
        let server_port = match parse_u16(trim(self.server_port.as_str()).as_str()) {
            Some(p) => p,
            None => 7000,
        };
        let local_port = match parse_u16(trim(self.local_port.as_str()).as_str()) {
            Some(p) => p,
            None => 0,
        };
        let remote_port = match parse_u16(trim(self.remote_port.as_str()).as_str()) {
            Some(p) => p,
            None => 0,
        };

        let mut out = String::new();
        out.append("serverAddr = \"");
        out.append(escape_toml_string(self.server_addr.as_str()).as_str());
        out.append("\"\n");
        out.append("serverPort = ");
        out.append(format_u64(server_port as u64).as_str());
        out.append("\n");
        let ghost head = out@;

        let token = trim(self.auth_token.as_str());
        if !token.as_str().is_empty() {
            out.append("\n");
            out.append("auth.method = \"token\"\n");
            out.append("auth.token = \"");
            out.append(escape_toml_string(token.as_str()).as_str());
            out.append("\"\n");
        }
        proof {
            assert(out@ == head + auth_section(self.auth_token@));
        }

        out.append("\n");
        out.append("[[proxies]]\n");
        out.append("name = \"");
        out.append(escape_toml_string(self.proxy_name.as_str()).as_str());
        out.append("\"\n");
        out.append("type = \"");
        out.append(escape_toml_string(self.proxy_type.as_str()).as_str());
        out.append("\"\n");
        out.append("localIP = \"");
        out.append(escape_toml_string(self.local_ip.as_str()).as_str());
        out.append("\"\n");
        out.append("localPort = ");
        out.append(format_u64(local_port as u64).as_str());
        out.append("\n");
        out.append("remotePort = ");
        out.append(format_u64(remote_port as u64).as_str());
        out.append("\n");
        out
    }
}

/// The label the proxy type selector shows: `UDP` or `TCP`.
pub fn proxy_type_label(value: &str) -> (r: String)
    ensures
        r@ == (if normalized_proxy_type(value@) == "udp"@ {
            "UDP"@
        } else {
            "TCP"@
        }),
{
    let t = normalize_proxy_type(value);
    if t == String::from_str("udp") {
        String::from_str("UDP")
    } else {
        String::from_str("TCP")
    }
}

/// The form that the TOML written for `f` stands for: the same texts, the
/// ports as the numbers written, the token trimmed (or `earlier_token` when
/// none is written) and the proxy type normalized.
pub open spec fn written_form(f: FormFields, earlier_token: Seq<char>) -> FormFields {
    FormFields {
        server_addr: f.server_addr,
        server_port: digits(port_or(f.server_port, 7000) as nat),
        auth_token: if is_blank(f.auth_token) {
            earlier_token
        } else {
            trimmed(f.auth_token)
        },
        proxy_name: f.proxy_name,
        proxy_type: normalized_proxy_type(f.proxy_type),
        local_ip: f.local_ip,
        local_port: digits(port_or(f.local_port, 0) as nat),
        remote_port: digits(port_or(f.remote_port, 0) as nat),
    }
}

/// `doc` holds, at the keys `config_toml` writes them under, the values it
/// writes for `f`: the texts as they are in the form, the ports as numbers,
/// the trimmed token under `auth` (and no `auth` when the token is blank).
pub open spec fn holds_written_values(doc: TomlValue, f: FormFields) -> bool {
    let proxy = first_proxy(doc);
    &&& str_at(doc, "serverAddr"@) == Some(f.server_addr)
    &&& int_at(doc, "serverPort"@) == Some(port_or(f.server_port, 7000) as i64)
    &&& if is_blank(f.auth_token) {
        doc.entry("auth"@) is None
    } else {
        item_str(doc.entry("auth"@), "token"@) == Some(trimmed(f.auth_token))
    }
    &&& item_str(proxy, "name"@) == Some(f.proxy_name)
    &&& item_str(proxy, "type"@) == Some(f.proxy_type)
    &&& item_str(proxy, "localIP"@) == Some(f.local_ip)
    &&& item_int(proxy, "localPort"@) == Some(port_or(f.local_port, 0) as i64)
    &&& item_int(proxy, "remotePort"@) == Some(port_or(f.remote_port, 0) as i64)
}

/// Reading back a document that holds what was written for a form gives
/// that form, with ports as numbers, the token trimmed and the proxy type
/// normalized, whatever the form held before.
pub proof fn lemma_read_back_written_form(current: FormFields, f: FormFields, doc: TomlValue)
    requires
        holds_written_values(doc, f),
    ensures
        applied_form(current, doc) == written_form(f, current.auth_token),
{
    assert(applied_form(current, doc) =~= written_form(f, current.auth_token));
}

/// Writing the form that a written file stands for gives the same file
/// again, as long as the proxy type was already normalized and a blank token
/// does not bring back an earlier one: saving, loading and saving again
/// changes nothing.
pub proof fn lemma_written_form_is_stable(f: FormFields, earlier_token: Seq<char>)
    requires
        normalized_proxy_type(f.proxy_type) == f.proxy_type,
        is_blank(f.auth_token) ==> is_blank(earlier_token),
    ensures
        config_toml(written_form(f, earlier_token)) == config_toml(f),
{
    let w = written_form(f, earlier_token);
    let sp = port_or(f.server_port, 7000);
    let lp = port_or(f.local_port, 0);
    let rp = port_or(f.remote_port, 0);
    lemma_digits_trimmed(sp as nat);
    lemma_digits_trimmed(lp as nat);
    lemma_digits_trimmed(rp as nat);
    lemma_u16_decimal_round_trip(sp);
    lemma_u16_decimal_round_trip(lp);
    lemma_u16_decimal_round_trip(rp);
    assert(port_or(w.server_port, 7000) == sp);
    assert(port_or(w.local_port, 0) == lp);
    assert(port_or(w.remote_port, 0) == rp);
    lemma_trimmed_idempotent(f.auth_token);
    assert(auth_section(w.auth_token) == auth_section(f.auth_token));
}

} // verus!
