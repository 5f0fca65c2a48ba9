use vstd::prelude::*;
use vstd::string::*;
use crate::colour::Colour;

verus! {

/// How the box behind a message is drawn.
#[derive(Clone, Copy, Debug, PartialEq, Eq, Structural)]
pub enum Style {
    /// A box with rounded corners of the given width and height, in pixels.
    Curved(u32, u32),
    /// A plain box fitted round the text.
    Rectangle,
    /// No box: the text alone.
    Clear,
}

/// A transient notice shown over the board.
#[derive(Debug)]
pub struct Message {
    message: String,
    font_size: u16,
    pos: (i64, i64),
    lifetime: Option<usize>,
    current: usize,
    style: Style,
    fg: Colour,
    bg: Colour,
}

/// What a `Message` holds.
pub struct MessageView {
    pub message: Seq<char>,
    pub font_size: u16,
    /// Centre of the text, in pixels.
    pub pos: (i64, i64),
    /// Ticks after which the message leaves the queue; `None` for a message
    /// that stays.
    pub lifetime: Option<usize>,
    /// Ticks that the message has been queued for.
    pub current: usize,
    pub style: Style,
    pub fg: Colour,
    pub bg: Colour,
}

impl MessageView {
    /// What a fresh builder holds: empty white text of size 50 on black, no
    /// box, at the origin, staying for ever.
    pub open spec fn blueprint() -> MessageView {
        MessageView {
            message: Seq::empty(),
            font_size: 50,
            pos: (0, 0),
            lifetime: None,
            current: 0,
            style: Style::Clear,
            fg: Colour::white(),
            bg: Colour::black(),
        }
    }

    /// The message one tick later. The count stops at the largest value it
    /// can hold.
    pub open spec fn aged(self) -> MessageView {
        MessageView {
            current: if self.current < usize::MAX {
                (self.current + 1) as usize
            } else {
                self.current
            },
            ..self
        }
    }

    /// The message `n` ticks later.
    pub open spec fn aged_by(self, n: nat) -> MessageView
        decreases n,
    {
        if n == 0 {
            self
        } else {
            self.aged_by((n - 1) as nat).aged()
        }
    }

    /// The message has a lifetime and has been queued for no fewer ticks.
    pub open spec fn expired(self) -> bool {
        match self.lifetime {
            Some(lifetime) => self.current >= lifetime,
            None => false,
        }
    }
}

/// One tick of a queue: every message ages by one tick, then those that have
/// expired leave; the others keep their order.
pub open spec fn tick_queue(queue: Seq<MessageView>) -> Seq<MessageView>
    decreases queue.len(),
{
    if queue.len() == 0 {
        queue
    } else {
        let earlier = tick_queue(queue.drop_last());
        let last = queue.last().aged();
        if last.expired() {
            earlier
        } else {
            earlier.push(last)
        }
    }
}

/// `n` ticks of a queue.
pub open spec fn ticks_queue(queue: Seq<MessageView>, n: nat) -> Seq<MessageView>
    decreases n,
{
    if n == 0 {
        queue
    } else {
        tick_queue(ticks_queue(queue, (n - 1) as nat))
    }
}

/// A tick treats each message on its own: the tick of two queues joined is
/// the two ticked queues joined.
pub proof fn lemma_tick_queue_concat(a: Seq<MessageView>, b: Seq<MessageView>)
    ensures
        tick_queue(a + b) == tick_queue(a) + tick_queue(b),
    decreases b.len(),
{
    if b.len() == 0 {
        assert(a + b == a);
        assert(tick_queue(a) + tick_queue(b) == tick_queue(a));
    } else {
        lemma_tick_queue_concat(a, b.drop_last());
        assert((a + b).drop_last() == a + b.drop_last());
        assert((a + b).last() == b.last());
        let last = b.last().aged();
        if !last.expired() {
            assert((tick_queue(a) + tick_queue(b.drop_last())).push(last) == tick_queue(a)
                + tick_queue(b.drop_last()).push(last));
        }
    }
}

/// A tick never makes a queue longer, and every message that it keeps is a
/// message of the old queue, one tick older and not expired.
pub proof fn lemma_tick_queue_survivors(queue: Seq<MessageView>)
    ensures
        tick_queue(queue).len() <= queue.len(),
        forall|i: int|
            0 <= i < tick_queue(queue).len() ==> !(#[trigger] tick_queue(queue)[i]).expired()
                && exists|j: int| 0 <= j < queue.len() && tick_queue(queue)[i] == queue[j].aged(),
    decreases queue.len(),
{
    if queue.len() > 0 {
        lemma_tick_queue_survivors(queue.drop_last());
        let earlier = tick_queue(queue.drop_last());
        assert forall|i: int| 0 <= i < tick_queue(queue).len() implies !(#[trigger] tick_queue(
            queue,
        )[i]).expired() && exists|j: int|
            0 <= j < queue.len() && tick_queue(queue)[i] == queue[j].aged() by {
            if i < earlier.len() {
                let j = choose|j: int|
                    0 <= j < queue.drop_last().len() && earlier[i] == queue.drop_last()[j].aged();
                assert(queue.drop_last()[j] == queue[j]);
            } else {
                assert(tick_queue(queue)[i] == queue[queue.len() - 1].aged());
            }
        }
    }
}

/// After `n` ticks a message that started at zero has been queued for `n`
/// ticks, or for as many as the count can hold.
pub proof fn lemma_aged_by(message: MessageView, n: nat)
    requires
        message.current == 0,
    ensures
        message.aged_by(n).current == if n <= usize::MAX {
            n
        } else {
            usize::MAX as nat
        },
        message.aged_by(n) == (MessageView { current: message.aged_by(n).current, ..message }),
    decreases n,
{
    if n > 0 {
        lemma_aged_by(message, (n - 1) as nat);
    }
}

/// A message that joins a queue with a lifetime of `lifetime` ticks stands at
/// the end of the queue, aged with it, as long as fewer than `lifetime` ticks
/// have passed, and is gone after `lifetime` ticks and for ever after; one
/// with a lifetime of zero is gone after the first tick. The messages before
/// it fare as they would without it.
pub proof fn lemma_timed_message_leaves_on_time(
    queue: Seq<MessageView>,
    message: MessageView,
    lifetime: usize,
    n: nat,
)
    requires
        message.current == 0,
        message.lifetime == Some(lifetime),
    ensures
        n < lifetime ==> ticks_queue(queue.push(message), n) == ticks_queue(queue, n).push(
            message.aged_by(n),
        ),
        n >= lifetime && n > 0 ==> ticks_queue(queue.push(message), n) == ticks_queue(queue, n),
    decreases n,
{
    if n > 0 {
        let before = (n - 1) as nat;
        lemma_timed_message_leaves_on_time(queue, message, lifetime, before);
        lemma_aged_by(message, before);
        lemma_aged_by(message, n);
        let rest = ticks_queue(queue, before);
        if before < lifetime || before == 0 {
            let joined = rest.push(message.aged_by(before));
            assert(ticks_queue(queue.push(message), before) == joined);
            assert(joined.drop_last() == rest);
            assert(joined.last() == message.aged_by(before));
        }
    }
}

/// A message that joins a queue without a lifetime stands at the end of the
/// queue, aged with it, after any number of ticks.
pub proof fn lemma_lasting_message_stays(queue: Seq<MessageView>, message: MessageView, n: nat)
    requires
        message.lifetime is None,
    ensures
        ticks_queue(queue.push(message), n) == ticks_queue(queue, n).push(message.aged_by(n)),
    decreases n,
{
    if n > 0 {
        let before = (n - 1) as nat;
        lemma_lasting_message_stays(queue, message, before);
        lemma_lasting_message_keeps_no_lifetime(message, before);
        let rest = ticks_queue(queue, before);
        let joined = rest.push(message.aged_by(before));
        assert(joined.drop_last() == rest);
        assert(joined.last() == message.aged_by(before));
    }
}

proof fn lemma_lasting_message_keeps_no_lifetime(message: MessageView, n: nat)
    requires
        message.lifetime is None,
    ensures
        message.aged_by(n).lifetime is None,
    decreases n,
{
    if n > 0 {
        lemma_lasting_message_keeps_no_lifetime(message, (n - 1) as nat);
    }
}

impl View for Message {
    type V = MessageView;

    closed spec fn view(&self) -> MessageView {
        MessageView {
            message: self.message@,
            font_size: self.font_size,
            pos: self.pos,
            lifetime: self.lifetime,
            current: self.current,
            style: self.style,
            fg: self.fg,
            bg: self.bg,
        }
    }
}

impl Message {
    /// Ages the message by one tick.
    pub fn update(&mut self)
        ensures
            final(self)@ == old(self)@.aged(),
    {
        if self.current < usize::MAX {
            self.current = self.current + 1;
        }
    }

    /// Whether the message has outlived its lifetime.
    pub fn expired(&self) -> (gone: bool)
        ensures
            gone == self@.expired(),
    {
        match self.lifetime {
            Some(lifetime) => self.current >= lifetime,
            None => false,
        }
    }

    /// The text of the message.
    pub fn text(&self) -> (text: &str)
        ensures
            text@ == self@.message,
    {
        self.message.as_str()
    }

    pub fn font_size(&self) -> (size: u16)
        ensures
            size == self@.font_size,
    {
        self.font_size
    }

    /// Centre of the text, in pixels.
    pub fn pos(&self) -> (pos: (i64, i64))
        ensures
            pos == self@.pos,
    {
        self.pos
    }

    /// Ticks after which the message leaves the queue, if it ever does.
    pub fn lifetime(&self) -> (lifetime: Option<usize>)
        ensures
            lifetime == self@.lifetime,
    {
        self.lifetime
    }

    /// Ticks that the message has been queued for.
    pub fn current(&self) -> (ticks: usize)
        ensures
            ticks == self@.current,
    {
        self.current
    }

    pub fn style(&self) -> (style: Style)
        ensures
            style == self@.style,
    {
        self.style
    }

    /// Colour of the text.
    pub fn fg(&self) -> (colour: Colour)
        ensures
            colour == self@.fg,
    {
        self.fg
    }

    /// Colour of the box behind the text.
    pub fn bg(&self) -> (colour: Colour)
        ensures
            colour == self@.bg,
    {
        self.bg
    }
}

/// The messages of a queue, oldest first.
pub open spec fn queue_view(messages: Seq<Message>) -> Seq<MessageView> {
    Seq::new(messages.len(), |i: int| messages[i]@)
}

/// The queue of notices on show, in the order in which they were added.
#[derive(Debug)]
pub struct MessageHandler {
    messages: Vec<Message>,
}

impl View for MessageHandler {
    type V = Seq<MessageView>;

    closed spec fn view(&self) -> Seq<MessageView> {
        queue_view(self.messages@)
    }
}

impl MessageHandler {
    /// An empty queue.
    pub fn new() -> (queue: Self)
        ensures
            queue@ == Seq::<MessageView>::empty(),
    {
        Self { messages: Vec::new() }
    }

    /// Adds a message at the end of the queue.
    pub fn add(&mut self, message: Message)
        ensures
            final(self)@ == old(self)@.push(message@),
    {
        self.messages.push(message);
        assert(queue_view(self.messages@) == queue_view(old(self).messages@).push(message@));
    }

    /// One tick: ages every message, then drops those that have expired.
    pub fn update(&mut self)
        ensures
            final(self)@ == tick_queue(old(self)@),
    {
        let mut waiting: Vec<Message> = Vec::new();
        std::mem::swap(&mut self.messages, &mut waiting);
        let ghost before = waiting@;
        assert(queue_view(before.take(0)) == Seq::<MessageView>::empty());
        for message in it: waiting
            invariant
                it.seq() == before,
                queue_view(self.messages@) == tick_queue(queue_view(before.take(it.index()))),
        {
            let ghost i = it.index();
            let ghost kept = self.messages@;
            let mut message = message;
            message.update();
            proof {
                let next = queue_view(before.take(i + 1));
                assert(next.drop_last() == queue_view(before.take(i)));
                assert(next.last() == before[i]@);
            }
            if !message.expired() {
                self.messages.push(message);
                assert(queue_view(self.messages@) == queue_view(kept).push(message@));
            }
        }
        assert(before.take(before.len() as int) == before);
    }

    /// How many messages are queued.
    pub fn len(&self) -> (n: usize)
        ensures
            n == self@.len(),
    {
        self.messages.len()
    }

    /// The message at place `i`, the oldest being at place zero.
    pub fn get(&self, i: usize) -> (message: &Message)
        requires
            i < self@.len(),
        ensures
            message@ == self@[i as int],
    {
        &self.messages[i]
    }
}

/// Builder of a `Message`.
pub struct MessageSettings {
    message: String,
    lifetime: Option<usize>,
    current: usize,
    style: Style,
    fg: Colour,
    bg: Colour,
    pos: (i64, i64),
    font_size: u16,
}

impl View for MessageSettings {
    type V = MessageView;

    closed spec fn view(&self) -> MessageView {
        MessageView {
            message: self.message@,
            font_size: self.font_size,
            pos: self.pos,
            lifetime: self.lifetime,
            current: self.current,
            style: self.style,
            fg: self.fg,
            bg: self.bg,
        }
    }
}

impl MessageSettings {
    /// A builder with every setting at its default.
    pub fn blueprint() -> (settings: Self)
        ensures
            settings@ == MessageView::blueprint(),
    {
        Self {
            message: String::new(),
            lifetime: None,
            current: 0,
            pos: (0, 0),
            style: Style::Clear,
            fg: Colour::white(),
            bg: Colour::black(),
            font_size: 50,
        }
    }

    pub fn font_size(self, size: u16) -> (settings: Self)
        ensures
            settings@ == (MessageView { font_size: size, ..self@ }),
    {
        let mut settings = self;
        settings.font_size = size;
        settings
    }

    /// Sets the text.
    pub fn message(self, msg: &str) -> (settings: Self)
        ensures
            settings@ == (MessageView { message: msg@, ..self@ }),
    {
        let mut settings = self;
        settings.message = String::from_str(msg);
        settings
    }

    /// Lets the message leave the queue after `lifetime` ticks.
    pub fn lifetime(self, lifetime: usize) -> (settings: Self)
        ensures
            settings@ == (MessageView { lifetime: Some(lifetime), ..self@ }),
    {
        let mut settings = self;
        settings.lifetime = Some(lifetime);
        settings
    }

    pub fn style(self, style: Style) -> (settings: Self)
        ensures
            settings@ == (MessageView { style, ..self@ }),
    {
        let mut settings = self;
        settings.style = style;
        settings
    }

    /// Sets the centre of the text, in pixels.
    pub fn pos(self, x: i64, y: i64) -> (settings: Self)
        ensures
            settings@ == (MessageView { pos: (x, y), ..self@ }),
    {
        let mut settings = self;
        settings.pos = (x, y);
        settings
    }

    /// Sets the colour of the text.
    pub fn fg(self, colour: Colour) -> (settings: Self)
        ensures
            settings@ == (MessageView { fg: colour, ..self@ }),
    {
        let mut settings = self;
        settings.fg = colour;
        settings
    }

    /// Sets the colour of the box behind the text.
    pub fn bg(self, colour: Colour) -> (settings: Self)
        ensures
            settings@ == (MessageView { bg: colour, ..self@ }),
    {
        let mut settings = self;
        settings.bg = colour;
        settings
    }

    /// The message that the settings describe.
    pub fn build(self) -> (message: Message)
        ensures
            message@ == self@,
    {
        Message {
            message: self.message,
            lifetime: self.lifetime,
            current: self.current,
            style: self.style,
            fg: self.fg,
            bg: self.bg,
            pos: self.pos,
            font_size: self.font_size,
        }
    }
}

} // verus!
