//! The interactive calculator's state machine: two text buffers, an input
//! mode, and the four computed results, driven one keystroke at a time.

use vstd::prelude::*;
use crate::ip::{Ipv4, parse_ipv4, spec_parse_ipv4, spec_format_ipv4, spec_dec, format_ipv4,
    format_u64};
use crate::subnet::{calculate_network_address, calculate_broadcast_address,
    calculate_subnet_count, calculate_host_count, spec_network_address, spec_broadcast_address,
    spec_subnet_count, spec_host_count};

verus! {

/// Which text buffer receives typed characters.
#[derive(Clone, Copy, PartialEq, Eq, Structural, Debug)]
pub enum InputMode {
    IP,
    Subnet,
    NoTyping,
}

/// One keystroke, as the state machine sees it: a printable character,
/// backspace, enter, or anything else.
#[derive(Clone, Copy, PartialEq, Eq, Structural, Debug)]
pub enum Key {
    Char(char),
    Backspace,
    Enter,
    Other,
}

/// The calculator's whole state. Results are absent until a recomputation
/// succeeds, and are only ever replaced as a group of four.
pub struct App {
    pub ip_input: Vec<char>,
    pub subnet_input: Vec<char>,
    pub input_mode: InputMode,
    pub network_address: Option<Ipv4>,
    pub broadcast_address: Option<Ipv4>,
    pub subnet_count: Option<u64>,
    pub host_count: Option<u64>,
}

/// `a` and `b` hold the same four computed results.
pub open spec fn same_results(a: App, b: App) -> bool {
    &&& a.network_address == b.network_address
    &&& a.broadcast_address == b.broadcast_address
    &&& a.subnet_count == b.subnet_count
    &&& a.host_count == b.host_count
}

/// `a` and `b` hold the same text in both buffers.
pub open spec fn same_buffers(a: App, b: App) -> bool {
    &&& a.ip_input@ == b.ip_input@
    &&& a.subnet_input@ == b.subnet_input@
}

/// `a` and `b` are the same state: buffers, mode, and results.
pub open spec fn state_eq(a: App, b: App) -> bool {
    &&& same_buffers(a, b)
    &&& a.input_mode == b.input_mode
    &&& same_results(a, b)
}

/// The state after a recomputation: if both buffers parse as dotted-decimal
/// IPv4 literals, all four results are replaced together; otherwise the
/// state is untouched, previously computed results included.
pub open spec fn spec_recompute(app: App) -> App {
    match (spec_parse_ipv4(app.ip_input@), spec_parse_ipv4(app.subnet_input@)) {
        (Some(ip), Some(mask)) => App {
            network_address: Some(spec_network_address(ip, mask)),
            broadcast_address: Some(spec_broadcast_address(ip, mask)),
            subnet_count: Some(spec_subnet_count(mask) as u64),
            host_count: Some(spec_host_count(mask) as u64),
            ..app
        },
        _ => app,
    }
}

/// A buffer after backspace: the last character removed, or unchanged if
/// the buffer is already empty.
pub open spec fn spec_pop(s: Seq<char>) -> Seq<char> {
    if s.len() == 0 {
        s
    } else {
        s.drop_last()
    }
}

/// How one keystroke takes the state `s0` to `s1`, with `quit` saying
/// whether the loop should end: `q` quits, `i` and `s` pick a buffer
/// without clearing it, any other character is appended to the buffer the
/// mode selects, backspace removes that buffer's last character, and enter
/// recomputes and returns the mode to `NoTyping` whether or not the
/// recomputation succeeded.
pub open spec fn spec_handle_key(s0: App, s1: App, key: Key, quit: bool) -> bool {
    match key {
        Key::Char(c) => if c == 'q' {
            quit && state_eq(s1, s0)
        } else if c == 'i' {
            &&& !quit
            &&& s1.input_mode == InputMode::IP
            &&& same_buffers(s1, s0)
            &&& same_results(s1, s0)
        } else if c == 's' {
            &&& !quit
            &&& s1.input_mode == InputMode::Subnet
            &&& same_buffers(s1, s0)
            &&& same_results(s1, s0)
        } else {
            &&& !quit
            &&& s1.input_mode == s0.input_mode
            &&& same_results(s1, s0)
            &&& (s0.input_mode == InputMode::IP ==> s1.ip_input@ == s0.ip_input@.push(c)
                && s1.subnet_input@ == s0.subnet_input@)
            &&& (s0.input_mode == InputMode::Subnet ==> s1.subnet_input@ == s0.subnet_input@.push(
                c,
            ) && s1.ip_input@ == s0.ip_input@)
            &&& (s0.input_mode == InputMode::NoTyping ==> same_buffers(s1, s0))
        },
        Key::Backspace => {
            &&& !quit
            &&& s1.input_mode == s0.input_mode
            &&& same_results(s1, s0)
            &&& (s0.input_mode == InputMode::IP ==> s1.ip_input@ == spec_pop(s0.ip_input@)
                && s1.subnet_input@ == s0.subnet_input@)
            &&& (s0.input_mode == InputMode::Subnet ==> s1.subnet_input@ == spec_pop(
                s0.subnet_input@,
            ) && s1.ip_input@ == s0.ip_input@)
            &&& (s0.input_mode == InputMode::NoTyping ==> same_buffers(s1, s0))
        },
        Key::Enter => {
            &&& !quit
            &&& s1.input_mode == InputMode::NoTyping
            &&& same_buffers(s1, s0)
            &&& same_results(s1, spec_recompute(s0))
        },
        Key::Other => !quit && state_eq(s1, s0),
    }
}

impl App {
    /// The startup state: empty buffers, `NoTyping`, no results.
    pub fn new() -> (r: App)
        ensures
            r.ip_input@ == Seq::<char>::empty(),
            r.subnet_input@ == Seq::<char>::empty(),
            r.input_mode == InputMode::NoTyping,
            r.network_address is None,
            r.broadcast_address is None,
            r.subnet_count is None,
            r.host_count is None,
    {
        App {
            ip_input: Vec::new(),
            subnet_input: Vec::new(),
            input_mode: InputMode::NoTyping,
            network_address: None,
            broadcast_address: None,
            subnet_count: None,
            host_count: None,
        }
    }

    /// Recomputes the four results from the two buffers, exactly as
    /// `spec_recompute` describes: on any parse failure nothing changes.
    pub fn calculate_subnet(&mut self)
        ensures
            state_eq(*final(self), spec_recompute(*old(self))),
    {
        let ip_r = parse_ipv4(&self.ip_input);
        let mask_r = parse_ipv4(&self.subnet_input);
        if let (Some(ip), Some(mask)) = (ip_r, mask_r) {
            self.network_address = Some(calculate_network_address(ip, mask));
            self.broadcast_address = Some(calculate_broadcast_address(ip, mask));
            self.subnet_count = Some(calculate_subnet_count(mask));
            self.host_count = Some(calculate_host_count(mask));
        }
    }

    /// Applies one keystroke, exactly as `spec_handle_key` describes, and
    /// says whether the caller's loop should end.
    pub fn handle_key(&mut self, key: Key) -> (quit: bool)
        ensures
            spec_handle_key(*old(self), *final(self), key, quit),
    {
        match key {
            Key::Char(c) => {
                if c == 'q' {
                    return true;
                } else if c == 'i' {
                    self.input_mode = InputMode::IP;
                } else if c == 's' {
                    self.input_mode = InputMode::Subnet;
                } else {
                    match self.input_mode {
                        InputMode::IP => self.ip_input.push(c),
                        InputMode::Subnet => self.subnet_input.push(c),
                        InputMode::NoTyping => (),
                    }
                }
                false
            },
            Key::Backspace => {
                match self.input_mode {
                    InputMode::IP => {
                        if self.ip_input.len() > 0 {
                            self.ip_input.pop();
                        }
                    },
                    InputMode::Subnet => {
                        if self.subnet_input.len() > 0 {
                            self.subnet_input.pop();
                        }
                    },
                    InputMode::NoTyping => (),
                }
                false
            },
            Key::Enter => {
                self.calculate_subnet();
                self.input_mode = InputMode::NoTyping;
                false
            },
            Key::Other => false,
        }
    }

    /// The prompt shown above the input panel, by mode.
    pub fn input_title(&self) -> (r: &'static str)
        ensures
            self.input_mode == InputMode::IP ==> r@ == "Enter IP Address:"@,
            self.input_mode == InputMode::Subnet ==> r@ == "Enter Subnet Mask:"@,
            self.input_mode == InputMode::NoTyping ==> r@
                == "Press 'i' to Input IP, 's' for Subnet"@,
    {
        match self.input_mode {
            InputMode::IP => "Enter IP Address:",
            InputMode::Subnet => "Enter Subnet Mask:",
            InputMode::NoTyping => "Press 'i' to Input IP, 's' for Subnet",
        }
    }

    /// The network address as text, with `0.0.0.0` standing in while no
    /// result has been computed.
    pub fn network_address_text(&self) -> (r: Vec<char>)
        ensures
            r@ == spec_format_ipv4(spec_or_zero_addr(self.network_address)),
    {
        match self.network_address {
            Some(a) => format_ipv4(&a),
            None => format_ipv4(&Ipv4 { o0: 0, o1: 0, o2: 0, o3: 0 }),
        }
    }

    /// The broadcast address as text, with `0.0.0.0` standing in while no
    /// result has been computed.
    pub fn broadcast_address_text(&self) -> (r: Vec<char>)
        ensures
            r@ == spec_format_ipv4(spec_or_zero_addr(self.broadcast_address)),
    {
        match self.broadcast_address {
            Some(a) => format_ipv4(&a),
            None => format_ipv4(&Ipv4 { o0: 0, o1: 0, o2: 0, o3: 0 }),
        }
    }

    /// The subnet count as decimal text, with `0` standing in while no
    /// result has been computed.
    pub fn subnet_count_text(&self) -> (r: Vec<char>)
        ensures
            r@ == spec_dec(spec_or_zero(self.subnet_count) as int),
    {
        match self.subnet_count {
            Some(n) => format_u64(n),
            None => format_u64(0),
        }
    }

    /// The host count as decimal text, with `0` standing in while no
    /// result has been computed.
    pub fn host_count_text(&self) -> (r: Vec<char>)
        ensures
            r@ == spec_dec(spec_or_zero(self.host_count) as int),
    {
        match self.host_count {
            Some(n) => format_u64(n),
            None => format_u64(0),
        }
    }
}

/// An optional address, or the all-zero placeholder.
pub open spec fn spec_or_zero_addr(a: Option<Ipv4>) -> Ipv4 {
    match a {
        Some(x) => x,
        None => Ipv4 { o0: 0, o1: 0, o2: 0, o3: 0 },
    }
}

/// An optional count, or the zero placeholder.
pub open spec fn spec_or_zero(n: Option<u64>) -> u64 {
    match n {
        Some(x) => x,
        None => 0,
    }
}

/// Recomputing is idempotent: pressing enter twice in succession, with the
/// buffers untouched in between, leaves the results of the first press
/// unchanged — whether or not the texts parse.
pub proof fn lemma_enter_idempotent(s0: App, s1: App, s2: App, q1: bool, q2: bool)
    requires
        spec_handle_key(s0, s1, Key::Enter, q1),
        spec_handle_key(s1, s2, Key::Enter, q2),
    ensures
        same_results(s2, s1),
{
}

/// More generally, the results a recomputation leaves behind depend on the
/// buffer texts alone: two states with the same texts and the same prior
/// results recompute to the same results.
pub proof fn lemma_recompute_depends_on_text_only(a: App, b: App)
    requires
        a.ip_input@ == b.ip_input@,
        a.subnet_input@ == b.subnet_input@,
        same_results(a, b),
    ensures
        same_results(spec_recompute(a), spec_recompute(b)),
{
}

} // verus!
