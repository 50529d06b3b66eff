//! The command client. It does no input or output of its own: it keeps the
//! state of the connection, says what is to be written for each command, and
//! reads what came back. A driver owns the stream and carries the actions
//! out, one exchange at a time.

use vstd::prelude::*;
use vstd::slice::slice_subrange;
use vstd::string::*;
use vstd::utf8::{decode_utf8, encode_utf8, valid_utf8};
use crate::codec::{
    box_of, command_line, decode_image_find, encode, encode_touch, encode_touch_events,
    lemma_touch_round_trip, texts, touch_events_line, touch_line, touch_of_line,
};
use crate::decimal::{digits, push_digits, push_signed_digits, signed_digits};
use crate::entity::{
    FindBuilder, FindBuilderView, MatchInfo, ParamType, TouchBuilder, TouchFinger, TouchType,
};
use crate::error::Error;
use crate::message_type::MessageType;

verus! {

/// The most bytes that a driver reads for one reply. A reply is whatever one
/// read of up to this many bytes gives; what does not fit is cut off.
pub const REPLY_LIMIT: usize = 1024;

/// The text that `String::from_utf8_lossy` makes of `bytes`: the text that
/// they encode where they are valid UTF-8, and otherwise that text with the
/// replacement character U+FFFD in the place of what is not valid.
pub uninterp spec fn lossy_text(bytes: Seq<u8>) -> Seq<char>;

/// `String::from_utf8_lossy` turns bytes into text without ever failing. The
/// text depends on the bytes alone, and for bytes that are valid UTF-8 it is
/// the text that they encode.
#[verifier::external_body]
fn text_from_utf8_lossy(bytes: &[u8]) -> (text: String)
    ensures
        text@ == lossy_text(bytes@),
        valid_utf8(bytes@) ==> text@ == decode_utf8(bytes@),
{
    String::from_utf8_lossy(bytes).into_owned()
}

/// The part of what was read that is the reply: all of it up to the reply
/// limit, and no more than the first `REPLY_LIMIT` bytes of a longer read.
pub open spec fn reply_bytes(read: Seq<u8>) -> Seq<u8> {
    if read.len() > REPLY_LIMIT {
        read.take(REPLY_LIMIT as int)
    } else {
        read
    }
}

/// Turns the bytes that were read into the text of the reply.
pub fn reply_text(read: &[u8]) -> (text: String)
    ensures
        text@ == lossy_text(reply_bytes(read@)),
        valid_utf8(reply_bytes(read@)) ==> text@ == decode_utf8(reply_bytes(read@)),
{
    if read.len() > REPLY_LIMIT {
        text_from_utf8_lossy(slice_subrange(read, 0, REPLY_LIMIT))
    } else {
        text_from_utf8_lossy(read)
    }
}

/// What a driver does on the stream for one step of a command.
#[derive(Debug, Clone, PartialEq, Eq)]
pub enum Action {
    /// Write the whole line. No reply is read.
    Send(String),
    /// Write the whole line, then read one reply.
    Exchange(String),
}

/// An action, with its line as text.
pub enum ActionView {
    Send(Seq<char>),
    Exchange(Seq<char>),
}

impl View for Action {
    type V = ActionView;

    open spec fn view(&self) -> ActionView {
        match self {
            Action::Send(line) => ActionView::Send(line@),
            Action::Exchange(line) => ActionView::Exchange(line@),
        }
    }
}

impl Action {
    /// The line of the action.
    pub open spec fn spec_line(&self) -> Seq<char> {
        match self {
            Action::Send(line) => line@,
            Action::Exchange(line) => line@,
        }
    }

    /// The bytes that the driver writes: the line in UTF-8.
    pub fn bytes(&self) -> (bytes: &[u8])
        ensures
            bytes@ == encode_utf8(self.spec_line()),
    {
        match self {
            Action::Send(line) => line.as_str().as_bytes(),
            Action::Exchange(line) => line.as_str().as_bytes(),
        }
    }

    /// Whether the driver reads a reply once it has written the line.
    pub fn expects_reply(&self) -> (expected: bool)
        ensures
            expected == (self@ is Exchange),
    {
        match self {
            Action::Send(_) => false,
            Action::Exchange(_) => true,
        }
    }
}

impl DeepView for Action {
    type V = ActionView;

    open spec fn deep_view(&self) -> ActionView {
        self@
    }
}

/// The state of a client: where its device is, and whether a stream to it is
/// open.
pub struct ZxTouchView {
    pub host: Seq<char>,
    pub port: i32,
    pub connected: bool,
}

impl ZxTouchView {
    /// The state after a stream was opened.
    pub open spec fn opened(self) -> ZxTouchView {
        ZxTouchView { connected: true, ..self }
    }

    /// The state after the client was closed.
    pub open spec fn closed(self) -> ZxTouchView {
        ZxTouchView { connected: false, ..self }
    }
}

/// A client of one device. It is made without a connection, is connected when
/// the driver has opened a stream, and is without a connection again once it
/// is closed.
pub struct ZxTouch {
    host: String,
    port: i32,
    connected: bool,
}

impl View for ZxTouch {
    type V = ZxTouchView;

    closed spec fn view(&self) -> ZxTouchView {
        ZxTouchView { host: self.host@, port: self.port, connected: self.connected }
    }
}

/// The line that asks the device to wait for `milliseconds`: the wait is sent
/// in microseconds.
pub open spec fn sleep_line(milliseconds: u32) -> Seq<char> {
    command_line(MessageType::Usleep, seq![digits((milliseconds * 1000) as nat)])
}

/// The line that asks the device to search the screen for the image at
/// `image_path`.
pub open spec fn image_find_line(image_path: Seq<char>, settings: FindBuilderView) -> Seq<char> {
    command_line(
        MessageType::TemplateMatch,
        seq![
            image_path,
            digits(settings.max_try_times as nat),
            settings.acceptable,
            settings.scale_ration,
        ],
    )
}

/// The steps of a tap at (`x`, `y`): the finger goes down and comes up at the
/// same point.
pub open spec fn touch_plan(x: u32, y: u32) -> Seq<ActionView> {
    seq![
        ActionView::Send(touch_line(TouchType::Down, x, y, TouchFinger::Five)),
        ActionView::Send(touch_line(TouchType::Up, x, y, TouchFinger::Five)),
    ]
}

/// The steps of a long press at (`x`, `y`): down, a wait on the device, up.
pub open spec fn touch_long_plan(x: u32, y: u32, duration: u32) -> Seq<ActionView> {
    seq![
        ActionView::Send(touch_line(TouchType::Down, x, y, TouchFinger::Five)),
        ActionView::Exchange(sleep_line(duration)),
        ActionView::Send(touch_line(TouchType::Up, x, y, TouchFinger::Five)),
    ]
}

/// How far `a` and `b` are apart.
pub open spec fn distance(a: u32, b: u32) -> nat {
    if a <= b {
        (b - a) as nat
    } else {
        (a - b) as nat
    }
}

/// The point halfway from `a` to `b`, rounded towards `a`.
pub open spec fn midpoint(a: u32, b: u32) -> u32 {
    if a <= b {
        (a + (b - a) / 2) as u32
    } else {
        (a - (a - b) / 2) as u32
    }
}

/// Whether a swipe goes by way of the midpoint: it does when it travels more
/// than 50 units along one of the axes, in either direction.
pub open spec fn swipe_is_long(x: u32, y: u32, to_x: u32, to_y: u32) -> bool {
    distance(x, to_x) > 50 || distance(y, to_y) > 50
}

/// The steps of a swipe from (`x`, `y`) to (`to_x`, `to_y`). A long swipe
/// waits half of the duration, moves to the midpoint and waits the other
/// half; a short one waits the whole duration and moves to the end. Both begin
/// with the finger down at the start and end with the finger up at the end.
pub open spec fn swipe_plan(x: u32, y: u32, to_x: u32, to_y: u32, duration: u32) -> Seq<
    ActionView,
> {
    if swipe_is_long(x, y, to_x, to_y) {
        seq![
            ActionView::Send(touch_line(TouchType::Down, x, y, TouchFinger::Five)),
            ActionView::Exchange(sleep_line(duration / 2)),
            ActionView::Send(
                touch_line(TouchType::Move, midpoint(x, to_x), midpoint(y, to_y), TouchFinger::Five),
            ),
            ActionView::Exchange(sleep_line(duration / 2)),
            ActionView::Send(touch_line(TouchType::Up, to_x, to_y, TouchFinger::Five)),
        ]
    } else {
        seq![
            ActionView::Send(touch_line(TouchType::Down, x, y, TouchFinger::Five)),
            ActionView::Exchange(sleep_line(duration)),
            ActionView::Send(touch_line(TouchType::Move, to_x, to_y, TouchFinger::Five)),
            ActionView::Send(touch_line(TouchType::Up, to_x, to_y, TouchFinger::Five)),
        ]
    }
}

/// Whether the search for an image is over: it is once more time has passed
/// since its start than the timeout allows.
pub open spec fn deadline_passed(elapsed_nanos: u128, timeout_seconds: u32) -> bool {
    elapsed_nanos > timeout_seconds * 1_000_000_000
}

/// What follows from the reply to one search for an image that is to be
/// touched: a reply without a box is an error; the box of four zeros says
/// that the search goes on; every other box is tapped in its middle, and a
/// middle that does not fit in 32 bits is an error.
pub open spec fn touch_image_outcome(reply: Seq<char>) -> Result<Option<Seq<ActionView>>, Error> {
    match box_of(reply) {
        None => Err(Error::Protocol),
        Some((x, y, w, h)) => match MatchInfo::spec_from_box(x, y, w, h) {
            None => Ok(None),
            Some(found) => match found.spec_center() {
                None => Err(Error::Protocol),
                Some((cx, cy)) => Ok(Some(touch_plan(cx, cy))),
            },
        },
    }
}

/// A client that is not connected gives the error `NotConnected` in place of
/// every action: nothing is written and nothing is read for it.
pub proof fn lemma_nothing_without_connection(
    client: &ZxTouch,
    r: Result<Action, Error>,
    action: ActionView,
)
    requires
        !client@.connected,
        client.gives(r, action),
    ensures
        r matches Err(e) && e == Error::NotConnected,
{
}

/// A tap is two events at one point with one finger: its first line reads
/// back as the finger going down, its second as the same finger coming up,
/// both at the coordinates of the tap. This is stated of the taps whose
/// coordinates in tenths fit in five digits, which are those that read back.
pub proof fn lemma_touch_is_down_then_up(x: u32, y: u32)
    requires
        x * 10 < 100000,
        y * 10 < 100000,
    ensures
        touch_plan(x, y).len() == 2,
        touch_plan(x, y)[0] matches ActionView::Send(line) && touch_of_line(line) == Some(
            (TouchType::Down, (x * 10) as u32, (y * 10) as u32, TouchFinger::Five),
        ),
        touch_plan(x, y)[1] matches ActionView::Send(line) && touch_of_line(line) == Some(
            (TouchType::Up, (x * 10) as u32, (y * 10) as u32, TouchFinger::Five),
        ),
{
    lemma_touch_round_trip(TouchType::Down, x, y, TouchFinger::Five);
    lemma_touch_round_trip(TouchType::Up, x, y, TouchFinger::Five);
}

/// Closing twice is closing once: a closed client is not connected, closing
/// it again leaves it as it is and asks for no shutdown.
pub proof fn lemma_close_is_idempotent(state: ZxTouchView)
    ensures
        !state.closed().connected,
        state.closed().closed() == state.closed(),
{
}

impl ZxTouch {
    /// What a command gives on this client: `action` while it is connected,
    /// the error `NotConnected` while it is not.
    pub open spec fn gives(&self, r: Result<Action, Error>, action: ActionView) -> bool {
        if self@.connected {
            r matches Ok(a) && a@ == action
        } else {
            r matches Err(e) && e == Error::NotConnected
        }
    }

    /// What a command of several steps gives on this client: `plan` while it
    /// is connected, the error `NotConnected` while it is not.
    pub open spec fn gives_plan(&self, r: Result<Vec<Action>, Error>, plan: Seq<ActionView>) -> bool {
        if self@.connected {
            r matches Ok(p) && p.deep_view() == plan
        } else {
            r matches Err(e) && e == Error::NotConnected
        }
    }

    /// Makes a client for the device at `host` and `port`, not yet connected.
    pub fn new(host: &str, port: i32) -> (client: ZxTouch)
        ensures
            client@ == (ZxTouchView { host: host@, port, connected: false }),
    {
        ZxTouch { host: String::from_str(host), port, connected: false }
    }

    /// The host of the device.
    pub fn host(&self) -> (host: &str)
        ensures
            host@ == self@.host,
    {
        self.host.as_str()
    }

    /// The port of the device.
    pub fn port(&self) -> (port: i32)
        ensures
            port == self@.port,
    {
        self.port
    }

    /// Whether a stream to the device is open.
    pub fn is_connected(&self) -> (connected: bool)
        ensures
            connected == self@.connected,
    {
        self.connected
    }

    /// The address that the driver opens a stream to: the host, a colon, and
    /// the port in decimal.
    pub fn address(&self) -> (address: String)
        ensures
            address@ == self@.host + seq![':'] + signed_digits(self@.port as int),
    {
        let mut address = self.host.clone();
        address.push(':');
        push_signed_digits(&mut address, self.port);
        address
    }

    /// Takes note that the driver has opened a stream to the device. The
    /// result says whether a stream was open before: the driver shuts that
    /// one down before it puts the new one in its place.
    pub fn connect(&mut self) -> (replaced: bool)
        ensures
            replaced == old(self)@.connected,
            final(self)@ == old(self)@.opened(),
    {
        let replaced = self.connected;
        self.connected = true;
        replaced
    }

    /// Closes the client. The result says whether a stream was open: the
    /// driver shuts it down in both directions. On a client that is not
    /// connected this changes nothing and asks for nothing.
    pub fn close(&mut self) -> (shutdown: bool)
        ensures
            shutdown == old(self)@.connected,
            final(self)@ == old(self)@.closed(),
    {
        let shutdown = self.connected;
        self.connected = false;
        shutdown
    }

    /// Tests that the client is connected.
    pub fn connected_required(&self) -> (r: Result<(), Error>)
        ensures
            r == if self@.connected {
                Ok::<(), Error>(())
            } else {
                Err(Error::NotConnected)
            },
    {
        if self.connected {
            Ok(())
        } else {
            Err(Error::NotConnected)
        }
    }

    /// A line that is written without a reply being read.
    fn send(&self, line: String) -> (r: Result<Action, Error>)
        ensures
            self.gives(r, ActionView::Send(line@)),
    {
        match self.connected_required() {
            Ok(_) => Ok(Action::Send(line)),
            Err(e) => Err(e),
        }
    }

    /// A line that is written and answered by one reply.
    fn exchange(&self, line: String) -> (r: Result<Action, Error>)
        ensures
            self.gives(r, ActionView::Exchange(line@)),
    {
        match self.connected_required() {
            Ok(_) => Ok(Action::Exchange(line)),
            Err(e) => Err(e),
        }
    }

    /// One touch event of the finger `finger` at (`x`, `y`).
    fn basetouch(&self, touch_type: TouchType, x: u32, y: u32, finger: TouchFinger) -> (r: Result<
        Action,
        Error,
    >)
        ensures
            self.gives(r, ActionView::Send(touch_line(touch_type, x, y, finger))),
    {
        self.send(encode_touch(touch_type, x, y, finger))
    }

    /// Shows an alert box with a title and a text for `duration` seconds. The
    /// reply is the device's acknowledgement.
    pub fn show_alert_box(&self, title: &str, content: &str, duration: u32) -> (r: Result<
        Action,
        Error,
    >)
        ensures
            self.gives(
                r,
                ActionView::Exchange(
                    command_line(
                        MessageType::ShowAlertBox,
                        seq![title@, content@, digits(duration as nat)],
                    ),
                ),
            ),
    {
        let args = vec![
            ParamType::String(String::from_str(title)),
            ParamType::String(String::from_str(content)),
            ParamType::U32(duration),
        ];
        assert(texts(args@) =~= seq![title@, content@, digits(duration as nat)]);
        self.exchange(encode(MessageType::ShowAlertBox, args.as_slice()))
    }

    /// Puts the finger down at (`x`, `y`).
    pub fn touch_down(&self, x: u32, y: u32, finger: TouchFinger) -> (r: Result<Action, Error>)
        ensures
            self.gives(r, ActionView::Send(touch_line(TouchType::Down, x, y, finger))),
    {
        self.basetouch(TouchType::Down, x, y, finger)
    }

    /// Moves the finger to (`x`, `y`).
    pub fn touch_move(&self, x: u32, y: u32, finger: TouchFinger) -> (r: Result<Action, Error>)
        ensures
            self.gives(r, ActionView::Send(touch_line(TouchType::Move, x, y, finger))),
    {
        self.basetouch(TouchType::Move, x, y, finger)
    }

    /// Lifts the finger at (`x`, `y`).
    pub fn touch_up(&self, x: u32, y: u32, finger: TouchFinger) -> (r: Result<Action, Error>)
        ensures
            self.gives(r, ActionView::Send(touch_line(TouchType::Up, x, y, finger))),
    {
        self.basetouch(TouchType::Up, x, y, finger)
    }

    /// Taps the point (`x`, `y`): two events, down and then up, at the same
    /// point and with the same finger.
    pub fn touch(&self, x: u32, y: u32) -> (r: Result<Vec<Action>, Error>)
        ensures
            self.gives_plan(r, touch_plan(x, y)),
    {
        match self.connected_required() {
            Ok(_) => {
                let plan = vec![
                    Action::Send(encode_touch(TouchType::Down, x, y, TouchFinger::Five)),
                    Action::Send(encode_touch(TouchType::Up, x, y, TouchFinger::Five)),
                ];
                assert(plan.deep_view() =~= touch_plan(x, y));
                Ok(plan)
            },
            Err(e) => Err(e),
        }
    }

    /// Presses the point (`x`, `y`) for `duration` milliseconds.
    pub fn touch_long(&self, x: u32, y: u32, duration: u32) -> (r: Result<Vec<Action>, Error>)
        ensures
            self.gives_plan(r, touch_long_plan(x, y, duration)),
    {
        match self.connected_required() {
            Ok(_) => {
                let plan = vec![
                    Action::Send(encode_touch(TouchType::Down, x, y, TouchFinger::Five)),
                    Action::Exchange(encode_sleep(duration)),
                    Action::Send(encode_touch(TouchType::Up, x, y, TouchFinger::Five)),
                ];
                assert(plan.deep_view() =~= touch_long_plan(x, y, duration));
                Ok(plan)
            },
            Err(e) => Err(e),
        }
    }

    /// Swipes from (`x`, `y`) to (`to_x`, `to_y`) in `duration` milliseconds,
    /// in whatever direction the end lies.
    pub fn swipe(&self, x: u32, y: u32, to_x: u32, to_y: u32, duration: u32) -> (r: Result<
        Vec<Action>,
        Error,
    >)
        ensures
            self.gives_plan(r, swipe_plan(x, y, to_x, to_y, duration)),
    {
        match self.connected_required() {
            Ok(_) => {
                let down = Action::Send(encode_touch(TouchType::Down, x, y, TouchFinger::Five));
                let up = Action::Send(encode_touch(TouchType::Up, to_x, to_y, TouchFinger::Five));
                let plan = if span(x, to_x) > 50 || span(y, to_y) > 50 {
                    vec![
                        down,
                        Action::Exchange(encode_sleep(duration / 2)),
                        Action::Send(
                            encode_touch(
                                TouchType::Move,
                                halfway(x, to_x),
                                halfway(y, to_y),
                                TouchFinger::Five,
                            ),
                        ),
                        Action::Exchange(encode_sleep(duration / 2)),
                        up,
                    ]
                } else {
                    vec![
                        down,
                        Action::Exchange(encode_sleep(duration)),
                        Action::Send(encode_touch(TouchType::Move, to_x, to_y, TouchFinger::Five)),
                        up,
                    ]
                };
                assert(plan.deep_view() =~= swipe_plan(x, y, to_x, to_y, duration));
                Ok(plan)
            },
            Err(e) => Err(e),
        }
    }

    /// Sends a batch of touch events as one line.
    pub fn touch_events(&self, list: Vec<(TouchType, u32, u32, TouchFinger)>) -> (r: Result<
        Action,
        Error,
    >)
        ensures
            self.gives(r, ActionView::Send(touch_events_line(list@))),
    {
        self.send(encode_touch_events(list.as_slice()))
    }

    /// Brings the app with the bundle identifier `bundle_id` to the front.
    /// The reply is the device's acknowledgement.
    pub fn open_app(&self, bundle_id: &str) -> (r: Result<Action, Error>)
        ensures
            self.gives(
                r,
                ActionView::Exchange(
                    command_line(MessageType::ProcessBringForeground, seq![bundle_id@]),
                ),
            ),
    {
        let args = vec![ParamType::String(String::from_str(bundle_id))];
        assert(texts(args@) =~= seq![bundle_id@]);
        self.exchange(encode(MessageType::ProcessBringForeground, args.as_slice()))
    }

    /// Runs a shell command on the device. The reply is what the device
    /// answers.
    pub fn run_shell_command(&self, command: &str) -> (r: Result<Action, Error>)
        ensures
            self.gives(r, ActionView::Exchange(command_line(MessageType::RunShell, seq![command@]))),
    {
        let args = vec![ParamType::String(String::from_str(command))];
        assert(texts(args@) =~= seq![command@]);
        self.exchange(encode(MessageType::RunShell, args.as_slice()))
    }

    /// Lets the device wait for `millseconds` milliseconds. The reply is the
    /// device's acknowledgement.
    pub fn sleep(&self, millseconds: u32) -> (r: Result<Action, Error>)
        ensures
            self.gives(r, ActionView::Exchange(sleep_line(millseconds))),
    {
        self.exchange(encode_sleep(millseconds))
    }

    /// Shows the keyboard. The reply is the device's acknowledgement.
    pub fn keyboard_show(&self) -> (r: Result<Action, Error>)
        ensures
            self.gives(
                r,
                ActionView::Exchange(
                    command_line(MessageType::Keyboardimpl, seq![digits(2), digits(2)]),
                ),
            ),
    {
        let args = vec![ParamType::I32(2), ParamType::I32(2)];
        assert(texts(args@) =~= seq![digits(2), digits(2)]);
        self.exchange(encode(MessageType::Keyboardimpl, args.as_slice()))
    }

    /// Hides the keyboard. The reply is the device's acknowledgement.
    pub fn keyboard_hide(&self) -> (r: Result<Action, Error>)
        ensures
            self.gives(
                r,
                ActionView::Exchange(
                    command_line(MessageType::Keyboardimpl, seq![digits(2), digits(1)]),
                ),
            ),
    {
        let args = vec![ParamType::I32(2), ParamType::I32(1)];
        assert(texts(args@) =~= seq![digits(2), digits(1)]);
        self.exchange(encode(MessageType::Keyboardimpl, args.as_slice()))
    }

    /// Types `text` where the cursor is. The reply is the device's
    /// acknowledgement.
    pub fn text(&self, text: &str) -> (r: Result<Action, Error>)
        ensures
            self.gives(
                r,
                ActionView::Exchange(
                    command_line(MessageType::Keyboardimpl, seq![digits(1), text@]),
                ),
            ),
    {
        let args = vec![ParamType::I32(1), ParamType::String(String::from_str(text))];
        assert(texts(args@) =~= seq![digits(1), text@]);
        self.exchange(encode(MessageType::Keyboardimpl, args.as_slice()))
    }

    /// Moves the cursor by `offset`. The reply is the device's
    /// acknowledgement.
    pub fn move_cursor(&self, offset: u32) -> (r: Result<Action, Error>)
        ensures
            self.gives(
                r,
                ActionView::Exchange(
                    command_line(
                        MessageType::Keyboardimpl,
                        seq![digits(3), digits(offset as nat)],
                    ),
                ),
            ),
    {
        let args = vec![ParamType::I32(3), ParamType::U32(offset)];
        assert(texts(args@) =~= seq![digits(3), digits(offset as nat)]);
        self.exchange(encode(MessageType::Keyboardimpl, args.as_slice()))
    }

    /// Asks for the size of the screen. `codec::decode_screen_size` reads the
    /// reply.
    pub fn get_screen_size(&self) -> (r: Result<Action, Error>)
        ensures
            self.gives(
                r,
                ActionView::Exchange(command_line(MessageType::GetDeviceInfo, seq![digits(1)])),
            ),
    {
        self.device_query(1)
    }

    /// Asks for the orientation of the screen.
    /// `codec::decode_screen_orientation` reads the reply.
    pub fn get_screen_orientation(&self) -> (r: Result<Action, Error>)
        ensures
            self.gives(
                r,
                ActionView::Exchange(command_line(MessageType::GetDeviceInfo, seq![digits(2)])),
            ),
    {
        self.device_query(2)
    }

    /// Asks for the scale of the screen. `codec::decode_screen_scale` reads
    /// the reply.
    pub fn get_screen_scale(&self) -> (r: Result<Action, Error>)
        ensures
            self.gives(
                r,
                ActionView::Exchange(command_line(MessageType::GetDeviceInfo, seq![digits(3)])),
            ),
    {
        self.device_query(3)
    }

    /// Asks for the description of the device. `codec::decode_device_info`
    /// reads the reply.
    pub fn get_device_info(&self) -> (r: Result<Action, Error>)
        ensures
            self.gives(
                r,
                ActionView::Exchange(command_line(MessageType::GetDeviceInfo, seq![digits(30)])),
            ),
    {
        self.device_query(30)
    }

    /// A query of the device-info family with the sub-code `code`.
    fn device_query(&self, code: u8) -> (r: Result<Action, Error>)
        ensures
            self.gives(
                r,
                ActionView::Exchange(
                    command_line(MessageType::GetDeviceInfo, seq![digits(code as nat)]),
                ),
            ),
    {
        let args = vec![ParamType::U8(code)];
        assert(texts(args@) =~= seq![digits(code as nat)]);
        self.exchange(encode(MessageType::GetDeviceInfo, args.as_slice()))
    }

    /// Asks for the languages that the text recognizer supports at the given
    /// recognition level. The reply is the device's list.
    pub fn get_supported_ocr_languages(&self, recognition_level: i32) -> (r: Result<Action, Error>)
        ensures
            self.gives(
                r,
                ActionView::Exchange(
                    command_line(
                        MessageType::TextRecognizer,
                        seq![digits(2), signed_digits(recognition_level as int)],
                    ),
                ),
            ),
    {
        let args = vec![ParamType::I32(2), ParamType::I32(recognition_level)];
        assert(texts(args@) =~= seq![digits(2), signed_digits(recognition_level as int)]);
        self.exchange(encode(MessageType::TextRecognizer, args.as_slice()))
    }

    /// Searches the screen for the image at `image_path`.
    /// `codec::decode_image_find` reads the reply.
    pub fn image_find(&self, image_path: &str, find_builder: FindBuilder) -> (r: Result<
        Action,
        Error,
    >)
        ensures
            self.gives(r, ActionView::Exchange(image_find_line(image_path@, find_builder@))),
    {
        self.exchange(encode_image_find(image_path, &find_builder))
    }

    /// One round of searching for an image in order to touch it. While the
    /// deadline has not passed the result is the search to make, and its
    /// reply goes to `touch_image_reply`. Once the deadline has passed the
    /// result is `None`: nothing was touched.
    pub fn touch_image(
        &self,
        image_path: &str,
        touch_builder: &TouchBuilder,
        elapsed_nanos: u128,
    ) -> (r: Result<Option<Action>, Error>)
        ensures
            !self@.connected ==> (r matches Err(e) && e == Error::NotConnected),
            self@.connected && deadline_passed(elapsed_nanos, touch_builder@.timeout_seconds) ==> (r
                matches Ok(None)),
            self@.connected && !deadline_passed(elapsed_nanos, touch_builder@.timeout_seconds)
                ==> (r matches Ok(Some(search)) && search@ == ActionView::Exchange(
                image_find_line(image_path@, touch_builder@.find_builder),
            )),
    {
        match self.connected_required() {
            Ok(_) => {
                if elapsed_nanos > touch_builder.timeout_seconds as u128 * 1_000_000_000 {
                    Ok(None)
                } else {
                    Ok(
                        Some(
                            Action::Exchange(
                                encode_image_find(image_path, &touch_builder.find_builder),
                            ),
                        ),
                    )
                }
            },
            Err(e) => Err(e),
        }
    }

    /// Reads the reply to one search for an image that is to be touched. The
    /// result is the tap in the middle of the match: once the driver has
    /// carried it out, the image was touched. It is `None` where nothing was
    /// found: the next round follows.
    pub fn touch_image_reply(&self, reply: &str) -> (r: Result<Option<Vec<Action>>, Error>)
        ensures
            !self@.connected ==> (r matches Err(e) && e == Error::NotConnected),
            self@.connected ==> match (r, touch_image_outcome(reply@)) {
                (Ok(Some(plan)), Ok(Some(taps))) => plan.deep_view() == taps,
                (Ok(None), Ok(None)) => true,
                (Err(e), Err(expected)) => e == expected,
                _ => false,
            },
    {
        match self.connected_required() {
            Ok(_) => {},
            Err(e) => {
                return Err(e);
            },
        }
        match decode_image_find(reply) {
            Err(e) => Err(e),
            Ok(None) => Ok(None),
            Ok(Some(found)) => match found.center() {
                None => Err(Error::Protocol),
                Some((x, y)) => match self.touch(x, y) {
                    Ok(plan) => Ok(Some(plan)),
                    Err(e) => Err(e),
                },
            },
        }
    }
}

/// Writes the line that asks the device to wait.
fn encode_sleep(milliseconds: u32) -> (line: String)
    ensures
        line@ == sleep_line(milliseconds),
{
    let mut microseconds = String::new();
    push_digits(&mut microseconds, milliseconds as u64 * 1000);
    assert(microseconds@ =~= digits((milliseconds * 1000) as nat));
    let args = vec![ParamType::String(microseconds)];
    assert(texts(args@) =~= seq![digits((milliseconds * 1000) as nat)]);
    encode(MessageType::Usleep, args.as_slice())
}

/// Writes the line that asks for an image search.
fn encode_image_find(image_path: &str, settings: &FindBuilder) -> (line: String)
    ensures
        line@ == image_find_line(image_path@, settings@),
{
    let args = vec![
        ParamType::String(String::from_str(image_path)),
        ParamType::U8(settings.max_try_times),
        ParamType::String(settings.acceptable.clone()),
        ParamType::String(settings.scale_ration.clone()),
    ];
    assert(texts(args@) =~= seq![
        image_path@,
        digits(settings.max_try_times as nat),
        settings.acceptable@,
        settings.scale_ration@,
    ]);
    encode(MessageType::TemplateMatch, args.as_slice())
}

/// Computes how far `a` and `b` are apart.
fn span(a: u32, b: u32) -> (d: u32)
    ensures
        d == distance(a, b),
{
    if a <= b {
        b - a
    } else {
        a - b
    }
}

/// Computes the point halfway from `a` to `b`.
fn halfway(a: u32, b: u32) -> (m: u32)
    ensures
        m == midpoint(a, b),
{
    if a <= b {
        a + (b - a) / 2
    } else {
        a - (a - b) / 2
    }
}

} // verus!
