//! The mailbox property-protocol engine.
//!
//! The engine owns the single fixed-capacity message buffer that travels to
//! the graphics co-processor, builds and parses the fixed-layout property
//! messages, and decides what to put into the hardware registers. Reading
//! and writing those registers is hardware work the engine cannot do itself:
//! a caller hands each observed response in as a [`MailReply`], and receives
//! the word for the write register back from [`MailBox::send_mail`].

use vstd::prelude::*;

use crate::Fault;
use crate::gpu::{ColorDepth, Display, spec_determine_depth};

verus! {

/// Number of 32-bit words in the message buffer.
pub const BUFFER_LENGTH: usize = 100;

/// Mailbox channel: power management.
pub const MAIL_POWER: u8 = 0;

/// Mailbox channel: framebuffer (legacy interface).
pub const MAIL_FB: u8 = 1;

/// Mailbox channel: virtual UART.
pub const MAIL_VUART: u8 = 2;

/// Mailbox channel: VCHIQ interface.
pub const MAIL_VCHIQ: u8 = 3;

/// Mailbox channel: LEDs.
pub const MAIL_LEDS: u8 = 4;

/// Mailbox channel: buttons.
pub const MAIL_BUTTONS: u8 = 5;

/// Mailbox channel: touchscreen.
pub const MAIL_TOUCH: u8 = 6;

/// Mailbox channel: counter.
pub const MAIL_COUNT: u8 = 7;

/// Mailbox channel: property tags. The only channel this engine talks on.
pub const MAIL_TAGS: u8 = 8;

/// Words of padding that make `4 * len` bytes 16-byte aligned.
pub open spec fn spec_calc_padding(len: int) -> int {
    ((16 - ((4 * len) % 16)) % 16) / 4
}

/// The padding of a word count is zero exactly when its byte length is a
/// multiple of 16.
pub proof fn lemma_padding_zero_iff(len: int)
    requires
        0 <= len,
    ensures
        spec_calc_padding(len) == 0 <==> (4 * len) % 16 == 0,
{
    let t = len % 4;
    let q = len / 4;
    vstd::arithmetic::div_mod::lemma_fundamental_div_mod(len, 4);
    vstd::arithmetic::div_mod::lemma_mod_bound(len, 4);
    assert(4 * len == 16 * q + 4 * t);
    vstd::arithmetic::div_mod::lemma_fundamental_div_mod_converse_mod(4 * len, 16, q, 4 * t);
    if t != 0 {
        vstd::arithmetic::div_mod::lemma_small_mod((16 - 4 * t) as nat, 16);
        vstd::arithmetic::div_mod::lemma_div_is_ordered(4, 16 - 4 * t, 4);
    }
}

/// The word the engine puts into the write register: the channel in the low
/// four bits, the buffer address shifted into the remaining bits.
pub open spec fn spec_mbox_write_word(channel: u8, addr: u32) -> u32 {
    (((channel & 0xF) as u32) | ((addr >> 4) << 4)) as u32
}

/// Whether the status register's empty flag (bit 30) is set.
pub open spec fn spec_status_empty(status: u32) -> bool {
    status & 0x4000_0000 != 0
}

/// Runtime test of the status register's empty flag: while it is set, no
/// response is waiting and the caller keeps polling.
pub fn status_empty(status: u32) -> (b: bool)
    ensures
        b == spec_status_empty(status),
{
    status & 0x4000_0000 != 0
}

/// The property message that asks for a `width` by `height` framebuffer:
/// physical size, virtual size, 32-bit depth, RGB pixel order, ignored
/// alpha; 112 bytes in all, 16-byte aligned.
pub open spec fn spec_size_request(width: u32, height: u32) -> Seq<u32> {
    seq![
        112u32, 0u32,
        0x00048003u32, 8u32, 0u32, width, height,
        0x00048004u32, 8u32, 0u32, width, height,
        0x00048005u32, 4u32, 0u32, 32u32,
        0x00048006u32, 4u32, 0u32, 1u32,
        0x00040007u32, 4u32, 0u32, 2u32,
        0u32, 0u32, 0u32, 0u32,
    ]
}

/// The property message that asks for the allocated buffer's base pointer
/// and byte length; 32 bytes, 16-byte aligned.
pub open spec fn spec_alloc_request() -> Seq<u32> {
    seq![32u32, 0u32, 0x00040001u32, 8u32, 0u32, 16u32, 0u32, 0u32]
}

/// One observed mailbox response: the value of the read register once the
/// status register reported data, and the message buffer's content at that
/// moment (the co-processor writes its answer into the same buffer).
pub struct MailReply {
    /// The read register: responding channel in the low four bits.
    pub read_word: u32,
    /// The message buffer as the co-processor left it.
    pub mail: Vec<u32>,
}

/// Index of the first reply at or after `from` whose low four bits name the
/// property-tags channel.
pub open spec fn first_tag_match(replies: Seq<MailReply>, from: int) -> Option<int>
    decreases replies.len() - from when 0 <= from <= replies.len()
{
    if from >= replies.len() {
        None
    } else if replies[from].read_word & 0xF == MAIL_TAGS as u32 {
        Some(from)
    } else {
        first_tag_match(replies, from + 1)
    }
}

/// A scan that saw no match strictly before `i`, and a match at `i` if
/// `i` is in range, pins down `first_tag_match`.
pub proof fn lemma_first_tag_match(replies: Seq<MailReply>, from: int, i: int)
    requires
        0 <= from <= i <= replies.len(),
        forall|k: int| from <= k < i ==> #[trigger] replies[k].read_word & 0xF != MAIL_TAGS as u32,
        i < replies.len() ==> replies[i].read_word & 0xF == MAIL_TAGS as u32,
    ensures
        first_tag_match(replies, from) == if i < replies.len() {
            Some(i)
        } else {
            None::<int>
        },
    decreases i - from,
{
    if from < i {
        lemma_first_tag_match(replies, from + 1, i);
    }
}

/// The framebuffer descriptor a reply stream yields: the size response
/// supplies width, height and pixel layout at its tag-defined offsets, the
/// allocation response supplies the buffer's bus address and byte length.
pub ghost struct FbDesc {
    /// Width in pixels.
    pub width: u32,
    /// Height in pixels.
    pub height: u32,
    /// Negotiated pixel layout.
    pub depth: ColorDepth,
    /// CPU-visible base address: the returned bus address with the top two
    /// alias bits masked.
    pub base: u32,
    /// Byte length of the allocated framebuffer.
    pub len_bytes: u32,
}

/// What a whole negotiation yields from a finite stream of observed
/// replies: the first reply on the property-tags channel answers the size
/// request, the next one answers the allocation request. `None` when the
/// co-processor never answers on that channel or never offers a
/// framebuffer (a masked base address of zero).
pub open spec fn spec_negotiate(replies: Seq<MailReply>) -> Option<FbDesc> {
    match first_tag_match(replies, 0) {
        None => None,
        Some(i) => match first_tag_match(replies, i + 1) {
            None => None,
            Some(j) => {
                let size = replies[i].mail@;
                let alloc = replies[j].mail@;
                let base = alloc[5] & 0x3FFFFFFF;
                if base == 0 {
                    None
                } else {
                    Some(
                        FbDesc {
                            width: size[10],
                            height: size[11],
                            depth: spec_determine_depth(size[15], size[19] != 0),
                            base,
                            len_bytes: alloc[6],
                        },
                    )
                }
            },
        },
    }
}

/// The mailbox engine: the single aligned message buffer, and the bus
/// address under which the co-processor sees that buffer.
pub struct MailBox {
    /// The message buffer; always [`BUFFER_LENGTH`] words.
    pub buffer: Vec<u32>,
    /// Bus-visible address of the buffer; 16-byte aligned so that the write
    /// register can carry it next to the channel bits.
    pub buffer_addr: u32,
}

impl MailBox {
    /// The compatibility string the driver manager registers this engine
    /// under.
    pub fn compatible(&self) -> (r: &'static str)
        ensures
            r@ == "BCM Mailbox"@,
    {
        "BCM Mailbox"
    }

    /// The buffer keeps its fixed capacity and its aligned address.
    pub open spec fn wf(&self) -> bool {
        self.buffer@.len() == BUFFER_LENGTH as int && self.buffer_addr % 16 == 0
    }

    /// A fresh engine around a zeroed buffer living at `buffer_addr`.
    pub fn new(buffer_addr: u32) -> (mb: MailBox)
        requires
            buffer_addr % 16 == 0,
        ensures
            mb.wf(),
            mb.buffer_addr == buffer_addr,
            mb.buffer@ =~= Seq::new(BUFFER_LENGTH as nat, |i: int| 0u32),
    {
        let mut buffer: Vec<u32> = Vec::new();
        let mut i: usize = 0;
        while i < BUFFER_LENGTH
            invariant
                i <= BUFFER_LENGTH,
                buffer@.len() == i as int,
                forall|j: int| 0 <= j < i ==> buffer@[j] == 0u32,
            decreases BUFFER_LENGTH - i,
        {
            buffer.push(0u32);
            i += 1;
        }
        MailBox { buffer, buffer_addr }
    }

    /// Words of padding that would make a message of `len` words 16-byte
    /// aligned; zero exactly when it already is.
    pub fn calc_padding(&self, len: usize) -> (pad: usize)
        requires
            len <= 0x1000_0000,
        ensures
            pad as int == spec_calc_padding(len as int),
    {
        ((16 - ((4 * len) % 16)) % 16) / 4
    }

    /// Copies a message into the engine's buffer, where its address
    /// survives into the hardware timing window. Fails with an alignment
    /// violation unless both the buffer's capacity and the message's length
    /// are 16-byte aligned.
    pub fn copy_to_buffer(&mut self, len: usize, src: &Vec<u32>) -> (r: Result<(), Fault>)
        requires
            old(self).wf(),
            len == src@.len(),
            len <= BUFFER_LENGTH,
        ensures
            final(self).wf(),
            final(self).buffer_addr == old(self).buffer_addr,
            r is Ok <==> spec_calc_padding(len as int) == 0,
            r is Ok ==> final(self).buffer@ == src@ + old(self).buffer@.skip(len as int),
            r is Err ==> *final(self) == *old(self) && r == Err::<(), Fault>(
                Fault::AlignmentViolation,
            ),
    {
        if self.calc_padding(BUFFER_LENGTH) != 0 {
            return Err(Fault::AlignmentViolation);
        }
        if self.calc_padding(len) != 0 {
            return Err(Fault::AlignmentViolation);
        }
        let mut i: usize = 0;
        while i < len
            invariant
                i <= len,
                len == src@.len(),
                len <= BUFFER_LENGTH,
                self.buffer@.len() == BUFFER_LENGTH as int,
                self.buffer_addr == old(self).buffer_addr,
                forall|j: int| 0 <= j < i ==> self.buffer@[j] == src@[j],
                forall|j: int| i <= j < BUFFER_LENGTH ==> self.buffer@[j] == old(self).buffer@[j],
            decreases len - i,
        {
            self.buffer[i] = src[i];
            i += 1;
        }
        proof {
            assert(self.buffer@ =~= src@ + old(self).buffer@.skip(len as int));
        }
        Ok(())
    }

    /// Copies the message into the buffer and yields the word for the write
    /// register: the channel in the low four bits, the buffer address above
    /// them. A message whose byte length is a multiple of 16 always goes
    /// through; a misaligned one is refused every time, because the address
    /// could not share the register with the channel bits cleanly.
    pub fn send_mail(&mut self, msg: &Vec<u32>, channel: u8) -> (r: Result<u32, Fault>)
        requires
            old(self).wf(),
            msg@.len() <= BUFFER_LENGTH,
            channel < 16,
        ensures
            final(self).wf(),
            final(self).buffer_addr == old(self).buffer_addr,
            r is Ok <==> (4 * msg@.len() as int) % 16 == 0,
            r matches Ok(word) ==> word == spec_mbox_write_word(channel, old(self).buffer_addr)
                && final(self).buffer@ == msg@ + old(self).buffer@.skip(msg@.len() as int),
            r is Err ==> *final(self) == *old(self) && r == Err::<u32, Fault>(
                Fault::AlignmentViolation,
            ),
    {
        proof {
            lemma_padding_zero_iff(msg@.len() as int);
        }
        match self.copy_to_buffer(msg.len(), msg) {
            Err(e) => Err(e),
            Ok(_) => Ok(((channel & 0xF) as u32) | ((self.buffer_addr >> 4) << 4)),
        }
    }

    /// Takes one observed response for the requested channel. A response
    /// whose encoded channel differs is never reported as success: the
    /// caller keeps polling. On a match, the buffer holds the
    /// co-processor's answer (`mail`), which by protocol reuses the very
    /// buffer address the request named.
    pub fn recv_mail(&mut self, channel: u8, read_word: u32, mail: &Vec<u32>) -> (r: Result<
        u32,
        Fault,
    >)
        requires
            old(self).wf(),
            mail@.len() == BUFFER_LENGTH,
            channel < 16,
        ensures
            final(self).wf(),
            final(self).buffer_addr == old(self).buffer_addr,
            r is Ok <==> read_word & 0xF == channel as u32,
            r matches Ok(c) ==> c == channel as u32 && final(self).buffer@ == mail@,
            r is Err ==> *final(self) == *old(self) && r == Err::<u32, Fault>(
                Fault::ChannelMismatch(read_word & 0xF),
            ),
    {
        let recv_channel = read_word & 0xF;
        if recv_channel != channel as u32 {
            return Err(Fault::ChannelMismatch(recv_channel));
        }
        let mut i: usize = 0;
        while i < BUFFER_LENGTH
            invariant
                i <= BUFFER_LENGTH,
                mail@.len() == BUFFER_LENGTH as int,
                self.buffer@.len() == BUFFER_LENGTH as int,
                self.buffer_addr == old(self).buffer_addr,
                forall|j: int| 0 <= j < i ==> self.buffer@[j] == mail@[j],
            decreases BUFFER_LENGTH - i,
        {
            self.buffer[i] = mail[i];
            i += 1;
        }
        proof {
            assert(self.buffer@ =~= mail@);
        }
        Ok(recv_channel)
    }

    /// The buffer word at `idx`; responses are read at their tag-defined
    /// offsets through this.
    pub fn read_buffer(&self, idx: usize) -> (w: u32)
        requires
            self.wf(),
            idx < BUFFER_LENGTH,
        ensures
            w == self.buffer@[idx as int],
    {
        self.buffer[idx]
    }

    /// The size response's payload: width and height at words 10 and 11,
    /// the pixel layout derived from the depth word (15) and the pixel
    /// order word (19).
    pub fn parse_size_response(&self) -> (r: (u32, u32, ColorDepth))
        requires
            self.wf(),
        ensures
            r.0 == self.buffer@[10],
            r.1 == self.buffer@[11],
            r.2 == spec_determine_depth(self.buffer@[15], self.buffer@[19] != 0),
    {
        let depth_bits = self.read_buffer(15);
        let order = self.read_buffer(19);
        (
            self.read_buffer(10),
            self.read_buffer(11),
            ColorDepth::determine_depth(depth_bits, order != 0),
        )
    }

    /// The allocation response's payload: the framebuffer's base address
    /// at word 5, with the top two bits masked so the bus address becomes
    /// one the CPU can reach, and its byte length at word 6.
    pub fn parse_alloc_response(&self) -> (r: (u32, u32))
        requires
            self.wf(),
        ensures
            r.0 == self.buffer@[5] & 0x3FFFFFFF,
            r.1 == self.buffer@[6],
    {
        (self.read_buffer(5) & 0x3FFFFFFF, self.read_buffer(6))
    }

    /// Runs the whole negotiation against a finite stream of observed
    /// responses: sends the size request, takes replies until one matches
    /// the property-tags channel, parses it, then does the same for the
    /// allocation request. The register words that `send_mail` yields are
    /// dropped here; a caller that talks to real hardware drives
    /// `send_mail` and `recv_mail` itself and performs the register writes
    /// and the polling in between.
    ///
    /// `None` means the stream never offered a framebuffer — the
    /// co-processor never answered on the channel, offered a null base
    /// address, or named a mode too large to address.
    pub fn request_framebuffer(&mut self, width: u32, height: u32, replies: &Vec<MailReply>) -> (r:
        Option<Display>)
        requires
            old(self).wf(),
            forall|k: int|
                0 <= k < replies@.len() ==> #[trigger] replies@[k].mail@.len()
                    == BUFFER_LENGTH as int,
        ensures
            final(self).wf(),
            final(self).buffer_addr == old(self).buffer_addr,
            r is Some <==> (spec_negotiate(replies@) matches Some(d) && (d.width as int) * (
            d.height as int) <= usize::MAX),
            r matches Some(disp) ==> (spec_negotiate(replies@) matches Some(d) && disp.width
                == d.width && disp.height == d.height && disp.depth == d.depth && disp.fb_base
                == d.base && disp.fb_len == d.len_bytes && disp.wf() && disp.pixels() =~= Seq::new(
                ((d.width as int) * (d.height as int)) as nat,
                |i: int| 0u32,
            )),
            ({
                match first_tag_match(replies@, 0) {
                    None => final(self).buffer@ == spec_size_request(width, height) + old(
                        self,
                    ).buffer@.skip(28),
                    Some(i) => match first_tag_match(replies@, i + 1) {
                        None => final(self).buffer@ == spec_alloc_request()
                            + replies@[i].mail@.skip(8),
                        Some(j) => final(self).buffer@ == replies@[j].mail@,
                    },
                }
            }),
    {
        let msg = build_size_request(width, height);
        let sent = self.send_mail(&msg, MAIL_TAGS);
        proof {
            assert(sent is Ok);
        }

        let ghost sent_buf = self.buffer@;
        let n = replies.len();
        let mut i: usize = 0;
        let mut found = false;
        while !found && i < n
            invariant
                self.wf(),
                self.buffer_addr == old(self).buffer_addr,
                n == replies@.len(),
                i <= n,
                forall|k: int|
                    0 <= k < replies@.len() ==> #[trigger] replies@[k].mail@.len()
                        == BUFFER_LENGTH as int,
                forall|k: int|
                    0 <= k < i ==> #[trigger] replies@[k].read_word & 0xF != MAIL_TAGS as u32,
                !found ==> self.buffer@ == sent_buf,
                found ==> i < replies@.len() && replies@[i as int].read_word & 0xF
                    == MAIL_TAGS as u32 && self.buffer@ == replies@[i as int].mail@,
            decreases replies@.len() - i + (if found { 0int } else { 1int }),
        {
            let rep = &replies[i];
            match self.recv_mail(MAIL_TAGS, rep.read_word, &rep.mail) {
                Ok(_) => {
                    found = true;
                },
                Err(_) => {
                    i += 1;
                },
            }
        }
        if !found {
            proof {
                lemma_first_tag_match(replies@, 0, replies@.len() as int);
            }
            return None;
        }
        proof {
            lemma_first_tag_match(replies@, 0, i as int);
        }
        let (w, h, depth) = self.parse_size_response();

        let msg2 = build_alloc_request();
        let sent2 = self.send_mail(&msg2, MAIL_TAGS);
        proof {
            assert(sent2 is Ok);
        }

        let ghost fst = i as int;
        let ghost sent_buf2 = self.buffer@;
        let mut j: usize = i + 1;
        let mut found2 = false;
        while !found2 && j < n
            invariant
                self.wf(),
                self.buffer_addr == old(self).buffer_addr,
                n == replies@.len(),
                fst + 1 <= j as int <= n,
                0 <= fst < replies@.len(),
                forall|k: int|
                    0 <= k < replies@.len() ==> #[trigger] replies@[k].mail@.len()
                        == BUFFER_LENGTH as int,
                forall|k: int|
                    fst < k < j as int ==> #[trigger] replies@[k].read_word & 0xF
                        != MAIL_TAGS as u32,
                !found2 ==> self.buffer@ == sent_buf2,
                found2 ==> j < replies@.len() && replies@[j as int].read_word & 0xF
                    == MAIL_TAGS as u32 && self.buffer@ == replies@[j as int].mail@,
            decreases replies@.len() - j + (if found2 { 0int } else { 1int }),
        {
            let rep = &replies[j];
            match self.recv_mail(MAIL_TAGS, rep.read_word, &rep.mail) {
                Ok(_) => {
                    found2 = true;
                },
                Err(_) => {
                    j += 1;
                },
            }
        }
        if !found2 {
            proof {
                lemma_first_tag_match(replies@, fst + 1, replies@.len() as int);
            }
            return None;
        }
        proof {
            lemma_first_tag_match(replies@, fst + 1, j as int);
        }
        let (base, len_bytes) = self.parse_alloc_response();
        if base == 0 {
            return None;
        }
        Display::create(w, h, depth, base, len_bytes)
    }
}

/// Builds the size request message (see [`spec_size_request`]).
pub fn build_size_request(width: u32, height: u32) -> (msg: Vec<u32>)
    ensures
        msg@ =~= spec_size_request(width, height),
{
    let mut msg: Vec<u32> = Vec::new();
    msg.push(112);
    msg.push(0);
    msg.push(0x00048003);
    msg.push(8);
    msg.push(0);
    msg.push(width);
    msg.push(height);
    msg.push(0x00048004);
    msg.push(8);
    msg.push(0);
    msg.push(width);
    msg.push(height);
    msg.push(0x00048005);
    msg.push(4);
    msg.push(0);
    msg.push(32);
    msg.push(0x00048006);
    msg.push(4);
    msg.push(0);
    msg.push(1);
    msg.push(0x00040007);
    msg.push(4);
    msg.push(0);
    msg.push(2);
    msg.push(0);
    msg.push(0);
    msg.push(0);
    msg.push(0);
    msg
}

/// Builds the allocation request message (see [`spec_alloc_request`]).
pub fn build_alloc_request() -> (msg: Vec<u32>)
    ensures
        msg@ =~= spec_alloc_request(),
{
    let mut msg: Vec<u32> = Vec::new();
    msg.push(32);
    msg.push(0);
    msg.push(0x00040001);
    msg.push(8);
    msg.push(0);
    msg.push(16);
    msg.push(0);
    msg.push(0);
    msg
}

} // verus!
