//! Screen casting: the state of discovery and casting, and what the SSDP answers
//! of devices on the local network say about them. The network itself (the
//! M-SEARCH request and the answers) is the application's.

use vstd::prelude::*;

use crate::shortcuts::{trim, trimmed_part};
use crate::text::{append_str, chars_of, string_from_chars};
use crate::wsl::{lemma_line_end, line_end, lines_from};

verus! {

/// State of screen casting.
#[derive(Debug, Clone, PartialEq, Eq)]
pub enum CastState {
    /// Not casting.
    Idle,
    /// Searching for devices on the local network.
    Discovering,
    /// Connected and streaming to a device.
    Casting { device_name: String },
    /// An error occurred.
    Error(String),
}

/// The kind of a discovered cast device.
#[derive(Debug, Clone, Copy, PartialEq, Eq, Structural)]
pub enum CastDeviceType {
    Chromecast,
    GoogleHome,
    SmartTv,
    Unknown,
}

/// A discovered cast-capable device.
#[derive(Debug, Clone)]
pub struct CastDevice {
    /// Human-readable device name.
    pub name: String,
    /// The device's IP address, as text.
    pub ip: String,
    pub port: u16,
    /// Device type hint.
    pub device_type: CastDeviceType,
}

/// The position of the first `:` from `i` on, or the end.
pub open spec fn colon_end(s: Seq<char>, i: int) -> int
    decreases s.len() - i,
{
    if i < 0 || i >= s.len() || s[i] == ':' {
        i
    } else {
        colon_end(s, i + 1)
    }
}

proof fn lemma_colon_end(s: Seq<char>, i: int)
    requires
        0 <= i <= s.len(),
    ensures
        i <= colon_end(s, i) <= s.len(),
        forall|k: int| i <= k < colon_end(s, i) ==> s[k] != ':',
        colon_end(s, i) < s.len() ==> s[colon_end(s, i)] == ':',
    decreases s.len() - i,
{
    if i < s.len() && s[i] != ':' {
        lemma_colon_end(s, i + 1);
    }
}

/// The code of a character with ASCII capitals made small.
pub open spec fn ascii_lower_code(c: char) -> u32 {
    let u = c as u32;
    if 65 <= u <= 90 {
        (u + 32) as u32
    } else {
        u
    }
}

/// Equal but for the case of ASCII letters, as `str::eq_ignore_ascii_case`.
pub open spec fn eq_ignore_ascii_case(a: Seq<char>, b: Seq<char>) -> bool {
    a.len() == b.len() && forall|i: int|
        0 <= i < a.len() ==> ascii_lower_code(#[trigger] a[i]) == ascii_lower_code(b[i])
}

/// The value of the header line for the field: the trimmed text after the first
/// `:`, when the trimmed name before it is the field (in any ASCII case).
pub open spec fn header_value(line: Seq<char>, field: Seq<char>) -> Option<Seq<char>> {
    let k = colon_end(line, 0);
    if k < line.len() && eq_ignore_ascii_case(trim(line.subrange(0, k)), field) {
        Some(trim(line.subrange(k + 1, line.len() as int)))
    } else {
        None
    }
}

/// The value of the first header line for the field.
pub open spec fn first_header(lines: Seq<Seq<char>>, field: Seq<char>) -> Option<Seq<char>>
    decreases lines.len(),
{
    if lines.len() == 0 {
        None
    } else {
        match header_value(lines[0], field) {
            Some(v) => Some(v),
            None => first_header(lines.drop_first(), field),
        }
    }
}

/// Whether `p` occurs in `s`.
pub open spec fn contains_seq(s: Seq<char>, p: Seq<char>) -> bool {
    exists|i: int| 0 <= i && i + p.len() <= s.len() && #[trigger] s.subrange(i, i + p.len()) == p
}

/// The kind of device an SSDP answer describes.
pub open spec fn device_type_of(r: Seq<char>) -> CastDeviceType {
    if contains_seq(r, "Chromecast"@) || contains_seq(r, "eureka"@) {
        CastDeviceType::Chromecast
    } else if contains_seq(r, "Google Home"@) || contains_seq(r, "assistant"@) {
        CastDeviceType::GoogleHome
    } else if contains_seq(r, "TV"@) || contains_seq(r, "Samsung"@) || contains_seq(r, "LG"@) {
        CastDeviceType::SmartTv
    } else {
        CastDeviceType::Unknown
    }
}

proof fn lemma_colon_after_name(name: Seq<char>, rest: Seq<char>, i: int)
    requires
        0 <= i <= name.len(),
        forall|k: int| 0 <= k < name.len() ==> name[k] != ':',
    ensures
        colon_end(name + seq![':'] + rest, i) == name.len(),
    decreases name.len() - i,
{
    let s = name + seq![':'] + rest;
    if i < name.len() {
        assert(s[i] == name[i]);
        lemma_colon_after_name(name, rest, i + 1);
    } else {
        assert(s[i] == ':');
    }
}

/// A header line `name: value` gives, for a field equal to the trimmed name but
/// for the case of ASCII letters, the trimmed value (everything after the first
/// colon), and nothing for any other field.
pub proof fn lemma_header_line(name: Seq<char>, value: Seq<char>, field: Seq<char>)
    requires
        forall|k: int| 0 <= k < name.len() ==> name[k] != ':',
    ensures
        header_value(name + seq![':'] + value, field) == (if eq_ignore_ascii_case(
            trim(name),
            field,
        ) {
            Some(trim(value))
        } else {
            None
        }),
{
    let s = name + seq![':'] + value;
    lemma_colon_after_name(name, value, 0);
    assert(s.subrange(0, name.len() as int) =~= name);
    assert(s.subrange(name.len() + 1int, s.len() as int) =~= value);
}

/// A device is named by its answer's FRIENDLY-NAME header when it has one, else by
/// its SERVER header, else as "Cast Device (address)".
pub proof fn lemma_device_name(r: Seq<char>, ip: Seq<char>)
    ensures
        first_header(lines_from(r, 0), "FRIENDLY-NAME"@) matches Some(n) ==> device_name_of(r, ip)
            == n,
        first_header(lines_from(r, 0), "FRIENDLY-NAME"@) is None ==> (first_header(
            lines_from(r, 0),
            "SERVER"@,
        ) matches Some(n) ==> device_name_of(r, ip) == n),
        first_header(lines_from(r, 0), "FRIENDLY-NAME"@) is None && first_header(
            lines_from(r, 0),
            "SERVER"@,
        ) is None ==> device_name_of(r, ip) == "Cast Device ("@ + ip + ")"@,
{
}

/// Text that has the pattern somewhere in it contains it.
pub proof fn lemma_contains_inside(a: Seq<char>, p: Seq<char>, b: Seq<char>)
    ensures
        contains_seq(a + p + b, p),
{
    let r = a + p + b;
    assert(r.subrange(a.len() as int, (a.len() + p.len()) as int) =~= p);
}

/// An SSDP answer is classified by the first kind of marker it holds: a
/// Chromecast marker ("Chromecast" or "eureka") makes it a Chromecast; else a
/// Google Home marker ("Google Home" or "assistant") a Google Home; else "TV",
/// "Samsung" or "LG" a smart TV; an answer with none of them is of unknown kind.
pub proof fn lemma_device_markers(r: Seq<char>)
    ensures
        contains_seq(r, "Chromecast"@) || contains_seq(r, "eureka"@) ==> device_type_of(r)
            == CastDeviceType::Chromecast,
        !contains_seq(r, "Chromecast"@) && !contains_seq(r, "eureka"@) && (contains_seq(
            r,
            "Google Home"@,
        ) || contains_seq(r, "assistant"@)) ==> device_type_of(r) == CastDeviceType::GoogleHome,
        !contains_seq(r, "Chromecast"@) && !contains_seq(r, "eureka"@) && !contains_seq(
            r,
            "Google Home"@,
        ) && !contains_seq(r, "assistant"@) && (contains_seq(r, "TV"@) || contains_seq(
            r,
            "Samsung"@,
        ) || contains_seq(r, "LG"@)) ==> device_type_of(r) == CastDeviceType::SmartTv,
        device_type_of(r) == CastDeviceType::Unknown <==> !contains_seq(r, "Chromecast"@)
            && !contains_seq(r, "eureka"@) && !contains_seq(r, "Google Home"@) && !contains_seq(
            r,
            "assistant"@,
        ) && !contains_seq(r, "TV"@) && !contains_seq(r, "Samsung"@) && !contains_seq(
            r,
            "LG"@,
        ),
{
}

/// The name an SSDP answer gives its device: its friendly name, else its server
/// string, else one made of the address.
pub open spec fn device_name_of(r: Seq<char>, ip: Seq<char>) -> Seq<char> {
    match first_header(lines_from(r, 0), "FRIENDLY-NAME"@) {
        Some(n) => n,
        None => match first_header(lines_from(r, 0), "SERVER"@) {
            Some(n) => n,
            None => "Cast Device ("@ + ip + ")"@,
        },
    }
}

fn lower_code(c: char) -> (r: u32)
    ensures
        r == ascii_lower_code(c),
{
    let u = c as u32;
    if 65 <= u && u <= 90 {
        u + 32
    } else {
        u
    }
}

/// Whether the two are equal but for the case of ASCII letters.
fn same_ignoring_ascii_case(a: &Vec<char>, b: &Vec<char>) -> (r: bool)
    ensures
        r == eq_ignore_ascii_case(a@, b@),
{
    if a.len() != b.len() {
        return false;
    }
    let mut i: usize = 0;
    while i < a.len()
        invariant
            a@.len() == b@.len(),
            i <= a@.len(),
            forall|k: int| 0 <= k < i ==> ascii_lower_code(#[trigger] a@[k]) == ascii_lower_code(b@[k]),
        decreases a@.len() - i,
    {
        if lower_code(a[i]) != lower_code(b[i]) {
            return false;
        }
        i += 1;
    }
    true
}

/// The value of the header line for the field, if it is one.
fn line_header(s: &Vec<char>, from: usize, to: usize, field: &Vec<char>) -> (r: Option<String>)
    requires
        from <= to <= s@.len(),
    ensures
        r matches Some(v) ==> header_value(s@.subrange(from as int, to as int), field@) == Some(
            v@,
        ),
        r is None ==> header_value(s@.subrange(from as int, to as int), field@) is None,
{
    let ghost line = s@.subrange(from as int, to as int);
    proof {
        lemma_colon_end(line, 0);
    }
    let mut k = from;
    while k < to && s[k] != ':'
        invariant
            from <= k <= to <= s@.len(),
            line == s@.subrange(from as int, to as int),
            colon_end(line, k - from) == colon_end(line, 0),
        decreases to - k,
    {
        assert(line[k - from] == s@[k as int]);
        k += 1;
    }
    proof {
        if k < to {
            assert(line[k - from] == s@[k as int]);
        }
        assert(colon_end(line, k - from) == k - from);
    }
    if k >= to {
        return None;
    }
    let name = chars_of(trimmed_part(s, from, k).as_str());
    assert(line.subrange(0, k - from) =~= s@.subrange(from as int, k as int));
    if same_ignoring_ascii_case(&name, field) {
        assert(line.subrange(k - from + 1, line.len() as int) =~= s@.subrange(k + 1, to as int));
        Some(trimmed_part(s, k + 1, to))
    } else {
        None
    }
}

/// The value of the first header line of an SSDP answer for the field.
pub fn parse_ssdp_field(response: &str, field: &str) -> (r: Option<String>)
    ensures
        r matches Some(v) ==> first_header(lines_from(response@, 0), field@) == Some(v@),
        r is None ==> first_header(lines_from(response@, 0), field@) is None,
{
    let cs = chars_of(response);
    let fc = chars_of(field);
    let ghost sq = cs@;
    let len = cs.len();
    let mut i: usize = 0;
    while i < len
        invariant
            sq == cs@,
            sq == response@,
            fc@ == field@,
            len == sq.len(),
            i <= len,
            first_header(lines_from(sq, 0), field@) == first_header(lines_from(sq, i as int), field@),
        decreases len - i,
    {
        let start = i;
        proof {
            lemma_line_end(sq, start as int);
        }
        while i < len && cs[i] != '\n'
            invariant
                start <= i <= len == sq.len(),
                sq == cs@,
                line_end(sq, i as int) == line_end(sq, start as int),
            decreases len - i,
        {
            i += 1;
        }
        proof {
            assert(lines_from(sq, start as int) == seq![sq.subrange(start as int, i as int)]
                + lines_from(sq, i + 1));
            assert((seq![sq.subrange(start as int, i as int)] + lines_from(sq, i + 1)).drop_first()
                =~= lines_from(sq, i + 1));
        }
        let found = line_header(&cs, start, i, &fc);
        if found.is_some() {
            proof {
                let ls = lines_from(sq, start as int);
                assert(ls.len() > 0);
                assert(ls[0] == sq.subrange(start as int, i as int));
                assert(first_header(ls, field@) == Some(found.unwrap()@));
            }
            return found;
        }
        if i < len {
            i += 1;
        } else {
            assert(lines_from(sq, i + 1) =~= lines_from(sq, i as int));
        }
    }
    None
}

/// Whether the text holds `p`.
fn has_text(s: &Vec<char>, p: &str) -> (r: bool)
    ensures
        r == contains_seq(s@, p@),
{
    let pc = chars_of(p);
    if pc.len() > s.len() {
        return false;
    }
    if pc.len() == 0 {
        assert(s@.subrange(0, 0 + p@.len() as int) =~= p@);
        return true;
    }
    let n = s.len();
    let last = n - pc.len();
    let mut i: usize = 0;
    while i <= last
        invariant
            pc@ == p@,
            n == s@.len(),
            pc@.len() > 0,
            last == s@.len() - pc@.len(),
            i <= last + 1,
            forall|j: int| 0 <= j < i ==> #[trigger] s@.subrange(j, j + pc@.len()) != pc@,
        decreases last + 1 - i,
    {
        let mut k: usize = 0;
        let mut same = true;
        while k < pc.len()
            invariant
                pc@ == p@,
                n == s@.len(),
                i <= last,
                last == s@.len() - pc@.len(),
                k <= pc@.len(),
                same == forall|m: int| 0 <= m < k ==> s@[i + m] == pc@[m],
            decreases pc@.len() - k,
        {
            assert(i + k < s@.len());
            if s[i + k] != pc[k] {
                same = false;
            }
            k += 1;
        }
        if same {
            assert(s@.subrange(i as int, i + pc@.len()) =~= pc@);
            return true;
        }
        assert(s@.subrange(i as int, i + pc@.len()) != pc@) by {
            let m = choose|m: int| 0 <= m < pc@.len() && s@[i + m] != pc@[m];
            assert(s@.subrange(i as int, i + pc@.len())[m] != pc@[m]);
        }
        i += 1;
    }
    assert forall|j: int| 0 <= j && j + p@.len() <= s@.len() implies #[trigger] s@.subrange(
        j,
        j + p@.len(),
    ) != p@ by {
        assert(j <= last);
    }
    false
}

/// The kind of device an SSDP answer describes.
pub fn classify_device(response: &str) -> (r: CastDeviceType)
    ensures
        r == device_type_of(response@),
{
    let s = chars_of(response);
    if has_text(&s, "Chromecast") || has_text(&s, "eureka") {
        CastDeviceType::Chromecast
    } else if has_text(&s, "Google Home") || has_text(&s, "assistant") {
        CastDeviceType::GoogleHome
    } else if has_text(&s, "TV") || has_text(&s, "Samsung") || has_text(&s, "LG") {
        CastDeviceType::SmartTv
    } else {
        CastDeviceType::Unknown
    }
}

/// The device an SSDP answer from the address describes.
pub fn device_from_response(response: &str, ip: &str, port: u16) -> (r: CastDevice)
    ensures
        r.name@ == device_name_of(response@, ip@),
        r.ip@ == ip@,
        r.port == port,
        r.device_type == device_type_of(response@),
{
    let name = match parse_ssdp_field(response, "FRIENDLY-NAME") {
        Some(n) => n,
        None => match parse_ssdp_field(response, "SERVER") {
            Some(n) => n,
            None => {
                let mut v = chars_of("Cast Device (");
                append_str(&mut v, ip);
                append_str(&mut v, ")");
                string_from_chars(v.as_slice())
            },
        },
    };
    CastDevice {
        name,
        ip: string_from_chars(chars_of(ip).as_slice()),
        port,
        device_type: classify_device(response),
    }
}

/// The addresses of the devices.
pub open spec fn device_ips(ds: Seq<CastDevice>) -> Seq<Seq<char>> {
    ds.map_values(|d: CastDevice| d.ip@)
}

/// Add the device an SSDP answer describes, unless a device with its address is
/// already known; true when it was added.
pub fn add_discovered(devices: &mut Vec<CastDevice>, response: &str, ip: &str, port: u16) -> (r:
    bool)
    ensures
        r == !device_ips(old(devices)@).contains(ip@),
        device_ips(old(devices)@).no_duplicates() ==> device_ips(final(devices)@).no_duplicates(),
        !r ==> final(devices)@ == old(devices)@,
        r ==> final(devices)@.drop_last() == old(devices)@ && final(devices)@.len() == old(devices)@.len() + 1 && final(devices)@.last().name@ == device_name_of(response@, ip@)
            && final(devices)@.last().ip@ == ip@ && final(devices)@.last().port == port
            && final(devices)@.last().device_type == device_type_of(response@),
{
    let ipc = chars_of(ip);
    let mut i: usize = 0;
    while i < devices.len()
        invariant
            ipc@ == ip@,
            i <= devices@.len(),
            forall|k: int| 0 <= k < i ==> devices@[k].ip@ != ip@,
        decreases devices@.len() - i,
    {
        let known = chars_of(devices[i].ip.as_str());
        if known.len() == ipc.len() {
            let mut k: usize = 0;
            let mut same = true;
            while k < known.len()
                invariant
                    known@.len() == ipc@.len(),
                    k <= known@.len(),
                    same == forall|m: int| 0 <= m < k ==> known@[m] == ipc@[m],
                decreases known@.len() - k,
            {
                if known[k] != ipc[k] {
                    same = false;
                }
                k += 1;
            }
            if same {
                assert(known@ =~= ipc@);
                assert(device_ips(devices@)[i as int] == ip@);
                return false;
            }
            assert(known@ != ipc@) by {
                let m = choose|m: int| 0 <= m < known@.len() && known@[m] != ipc@[m];
            }
        }
        i += 1;
    }
    assert(!device_ips(devices@).contains(ip@)) by {
        if device_ips(devices@).contains(ip@) {
            let k = choose|k: int| 0 <= k < device_ips(devices@).len() && device_ips(devices@)[k] == ip@;
            assert(devices@[k].ip@ == ip@);
        }
    }
    let d = device_from_response(response, ip, port);
    devices.push(d);
    assert(devices@.drop_last() =~= old(devices)@);
    assert(device_ips(devices@) =~= device_ips(old(devices)@).push(ip@));
    proof {
        let a = device_ips(old(devices)@);
        let b = device_ips(devices@);
        if a.no_duplicates() {
            assert forall|x: int, y: int| 0 <= x < b.len() && 0 <= y < b.len() && x != y implies b[x]
                != b[y] by {
                if x < a.len() && y < a.len() {
                    assert(b[x] == a[x] && b[y] == a[y]);
                } else if x < a.len() {
                    assert(b[x] == a[x]);
                    assert(a.contains(a[x]));
                } else if y < a.len() {
                    assert(b[y] == a[y]);
                    assert(a.contains(a[y]));
                }
            }
        }
    }
    true
}

/// Manages cast device discovery and the casting state.
pub struct CastManager {
    state: CastState,
    discovered_devices: Vec<CastDevice>,
}

impl CastManager {
    pub closed spec fn state_view(&self) -> CastState {
        self.state
    }

    pub closed spec fn devices_view(&self) -> Seq<CastDevice> {
        self.discovered_devices@
    }

    pub fn new() -> (r: Self)
        ensures
            r.state_view() == CastState::Idle,
            r.devices_view().len() == 0,
    {
        CastManager { state: CastState::Idle, discovered_devices: Vec::new() }
    }

    /// Current casting state.
    pub fn state(&self) -> (r: &CastState)
        ensures
            *r == self.state_view(),
    {
        &self.state
    }

    /// The devices found by the last scan.
    pub fn devices(&self) -> (r: &[CastDevice])
        ensures
            r@ == self.devices_view(),
    {
        self.discovered_devices.as_slice()
    }

    /// A scan begins: the state is discovering and the device list is emptied.
    pub fn start_discovery(&mut self)
        ensures
            final(self).state_view() == CastState::Discovering,
            final(self).devices_view().len() == 0,
    {
        self.state = CastState::Discovering;
        self.discovered_devices.clear();
    }

    /// A scan ended: with the devices it found the state is idle again; with an
    /// error the state holds its message and the list stays as it was.
    pub fn finish_discovery(&mut self, result: Result<Vec<CastDevice>, String>)
        ensures
            match result {
                Ok(found) => final(self).state_view() == CastState::Idle && final(self).devices_view() == found@,
                Err(e) => final(self).state_view() == CastState::Error(e) && final(self).devices_view() == old(self).devices_view(),
            },
    {
        match result {
            Ok(found) => {
                self.discovered_devices = found;
                self.state = CastState::Idle;
            },
            Err(e) => {
                self.state = CastState::Error(e);
            },
        }
    }

    /// Stop any active discovery or casting session.
    pub fn stop(&mut self)
        ensures
            final(self).state_view() == CastState::Idle,
            final(self).devices_view() == old(self).devices_view(),
    {
        self.state = CastState::Idle;
    }

    /// Whether casting is supported on this platform: discovery uses standard UDP
    /// sockets, available everywhere.
    pub fn is_supported() -> (r: bool)
        ensures
            r,
    {
        true
    }

    /// How to share the window with the operating system's own tools, on the given
    /// platform.
    pub fn native_share_hint(platform: DesktopPlatform) -> (r: &'static str)
        ensures
            r@ == share_hint(platform),
    {
        match platform {
            DesktopPlatform::MacOs => "Use AirPlay (Screen Mirroring in Control Center) or the macOS Screen Sharing app to share your Ridgeback window to another display.",
            DesktopPlatform::Windows => "Press Win+K to open the Cast panel and stream your Ridgeback window to a Miracast-compatible display, or use the Windows \"Connect\" app.",
            DesktopPlatform::Linux => "Use PipeWire/PulseAudio screen sharing, or share the Ridgeback window via OBS Studio, Wayland screen capture, or your desktop's built-in sharing.",
            DesktopPlatform::Other => "Use your operating system's built-in screen sharing to cast the Ridgeback window to another display.",
        }
    }
}

/// The desktop platform the application runs on.
#[derive(Debug, Clone, Copy, PartialEq, Eq, Structural)]
pub enum DesktopPlatform {
    MacOs,
    Windows,
    Linux,
    Other,
}

/// The hint on sharing the window with the platform's own tools.
pub open spec fn share_hint(platform: DesktopPlatform) -> Seq<char> {
    match platform {
        DesktopPlatform::MacOs => "Use AirPlay (Screen Mirroring in Control Center) or the macOS Screen Sharing app to share your Ridgeback window to another display."@,
        DesktopPlatform::Windows => "Press Win+K to open the Cast panel and stream your Ridgeback window to a Miracast-compatible display, or use the Windows \"Connect\" app."@,
        DesktopPlatform::Linux => "Use PipeWire/PulseAudio screen sharing, or share the Ridgeback window via OBS Studio, Wayland screen capture, or your desktop's built-in sharing."@,
        DesktopPlatform::Other => "Use your operating system's built-in screen sharing to cast the Ridgeback window to another display."@,
    }
}

} // verus!
