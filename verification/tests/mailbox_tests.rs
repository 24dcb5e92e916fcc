use fb_console::Fault;
use fb_console::gpu::ColorDepth;
use fb_console::mailbox::{
    BUFFER_LENGTH, MAIL_TAGS, MailBox, MailReply, build_alloc_request, build_size_request,
    status_empty,
};

/// A canonical size-request echo: the request words with the response code
/// set, padded to the buffer length.
fn size_echo(width: u32, height: u32, depth_bits: u32, order: u32) -> Vec<u32> {
    let mut mail = build_size_request(width, height);
    mail[1] = 0x8000_0000;
    mail[15] = depth_bits;
    mail[19] = order;
    while mail.len() < BUFFER_LENGTH {
        mail.push(0);
    }
    mail
}

/// A canonical allocation echo naming a framebuffer at `bus_base` of
/// `len_bytes` bytes.
fn alloc_echo(bus_base: u32, len_bytes: u32) -> Vec<u32> {
    let mut mail = build_alloc_request();
    mail[1] = 0x8000_0000;
    mail[5] = bus_base;
    mail[6] = len_bytes;
    while mail.len() < BUFFER_LENGTH {
        mail.push(0);
    }
    mail
}

fn canonical_replies() -> Vec<MailReply> {
    vec![
        MailReply { read_word: 8, mail: size_echo(1920, 1080, 32, 1) },
        MailReply { read_word: 8, mail: alloc_echo(0xC010_0000, 1920 * 1080 * 4) },
    ]
}

#[test]
fn send_aligned_never_aborts() {
    let mut mb = MailBox::new(0x100);
    let msg = build_size_request(1920, 1080);
    assert_eq!(msg.len(), 28);
    for _ in 0..3 {
        let r = mb.send_mail(&msg, MAIL_TAGS);
        assert!(r.is_ok());
    }
    let msg2 = build_alloc_request();
    assert_eq!(msg2.len(), 8);
    assert!(mb.send_mail(&msg2, MAIL_TAGS).is_ok());
}

#[test]
fn send_misaligned_aborts_every_time() {
    let mut mb = MailBox::new(0x100);
    let msg = vec![12u32, 0, 0];
    for _ in 0..3 {
        let r = mb.send_mail(&msg, MAIL_TAGS);
        assert_eq!(r, Err(Fault::AlignmentViolation));
    }
    // 4 words = 16 bytes: aligned again.
    let msg4 = vec![16u32, 0, 0, 0];
    assert!(mb.send_mail(&msg4, MAIL_TAGS).is_ok());
}

#[test]
fn send_packs_channel_and_buffer_address() {
    let addr: u32 = 0x0004_AAC0;
    let mut mb = MailBox::new(addr);
    let word = mb.send_mail(&build_size_request(1920, 1080), MAIL_TAGS).unwrap();
    assert_eq!(word, (8u32 & 0xF) | ((addr >> 4) << 4));
    assert_eq!(word, 8 | addr);
}

#[test]
fn recv_never_succeeds_on_mismatch() {
    let mail = vec![0u32; BUFFER_LENGTH];
    for requested in 0u8..16 {
        for responding in 0u32..16 {
            let mut mb = MailBox::new(0);
            let read_word = 0xABCD_0000 | responding;
            let r = mb.recv_mail(requested, read_word, &mail);
            if responding == requested as u32 {
                assert_eq!(r, Ok(responding));
            } else {
                assert_eq!(r, Err(Fault::ChannelMismatch(responding)));
            }
        }
    }
}

#[test]
fn recv_adopts_the_response_buffer() {
    let mut mb = MailBox::new(0);
    let mut mail = vec![0u32; BUFFER_LENGTH];
    mail[10] = 1234;
    mail[42] = 0xDEAD_BEEF;
    assert_eq!(mb.recv_mail(MAIL_TAGS, 8, &mail), Ok(8));
    assert_eq!(mb.read_buffer(10), 1234);
    assert_eq!(mb.read_buffer(42), 0xDEAD_BEEF);
}

#[test]
fn recv_on_mismatch_leaves_buffer_alone() {
    let mut mb = MailBox::new(0);
    let mut mail = vec![0u32; BUFFER_LENGTH];
    mail[0] = 7;
    assert!(mb.recv_mail(MAIL_TAGS, 3, &mail).is_err());
    assert_eq!(mb.read_buffer(0), 0);
}

#[test]
fn calc_padding_values() {
    let mb = MailBox::new(0);
    assert_eq!(mb.calc_padding(28), 0);
    assert_eq!(mb.calc_padding(8), 0);
    assert_eq!(mb.calc_padding(BUFFER_LENGTH), 0);
    assert_eq!(mb.calc_padding(3), 1);
    assert_eq!(mb.calc_padding(1), 3);
    assert_eq!(mb.calc_padding(0), 0);
}

#[test]
fn status_empty_reads_bit_30() {
    assert!(status_empty(0x4000_0000));
    assert!(status_empty(0xC000_0000));
    assert!(!status_empty(0x8000_0000));
    assert!(!status_empty(0));
}

#[test]
fn size_request_has_expected_layout() {
    let msg = build_size_request(1920, 1080);
    let expected: Vec<u32> = vec![
        112, 0, //
        0x0004_8003, 8, 0, 1920, 1080, //
        0x0004_8004, 8, 0, 1920, 1080, //
        0x0004_8005, 4, 0, 32, //
        0x0004_8006, 4, 0, 1, //
        0x0004_0007, 4, 0, 2, //
        0, 0, 0, 0,
    ];
    assert_eq!(msg, expected);
}

#[test]
fn alloc_request_has_expected_layout() {
    let msg = build_alloc_request();
    assert_eq!(msg, vec![32, 0, 0x0004_0001, 8, 0, 16, 0, 0]);
}

#[test]
fn parse_alloc_response_masks_bus_alias_bits() {
    let mut mb = MailBox::new(0);
    let mail = alloc_echo(0xC012_3450, 64);
    assert_eq!(mb.recv_mail(MAIL_TAGS, 8, &mail), Ok(8));
    let (base, len) = mb.parse_alloc_response();
    assert_eq!(base, 0x0012_3450);
    assert_eq!(len, 64);
}

#[test]
fn request_framebuffer_canonical_echo() {
    // A simulated mailbox that echoes the canonical response for a
    // 1920x1080, 32-bit-depth, RGB-order request.
    let mut mb = MailBox::new(0x40);
    let d = mb.request_framebuffer(1920, 1080, &canonical_replies()).unwrap();
    assert_eq!(d.width, 1920);
    assert_eq!(d.height, 1080);
    assert_eq!(d.depth, ColorDepth::ARGB32);
    assert!(d.fb_len > 0);
    assert_eq!(d.fb_base, 0x0010_0000);
}

#[test]
fn request_framebuffer_skips_foreign_channels() {
    let mut mb = MailBox::new(0x40);
    let noise = MailReply { read_word: 1, mail: vec![0u32; BUFFER_LENGTH] };
    let replies = vec![
        noise,
        MailReply { read_word: 8, mail: size_echo(640, 480, 32, 0) },
        MailReply { read_word: 3, mail: vec![0u32; BUFFER_LENGTH] },
        MailReply { read_word: 8, mail: alloc_echo(0xC000_1000, 640 * 480 * 4) },
    ];
    let d = mb.request_framebuffer(640, 480, &replies).unwrap();
    assert_eq!(d.width, 640);
    assert_eq!(d.height, 480);
    assert_eq!(d.depth, ColorDepth::ABGR32);
}

#[test]
fn request_framebuffer_absent_when_never_answered() {
    let mut mb = MailBox::new(0x40);
    assert!(mb.request_framebuffer(1920, 1080, &Vec::new()).is_none());
    let only_noise = vec![MailReply { read_word: 2, mail: vec![0u32; BUFFER_LENGTH] }];
    assert!(mb.request_framebuffer(1920, 1080, &only_noise).is_none());
}

#[test]
fn request_framebuffer_absent_on_null_base() {
    let mut mb = MailBox::new(0x40);
    let replies = vec![
        MailReply { read_word: 8, mail: size_echo(1920, 1080, 32, 1) },
        MailReply { read_word: 8, mail: alloc_echo(0xC000_0000, 0) },
    ];
    assert!(mb.request_framebuffer(1920, 1080, &replies).is_none());
}

#[test]
fn end_to_end_words_and_parsed_size() {
    // Request 1920x1080x32 RGB: the write register receives the
    // property-tags channel packed beside the buffer address, the receive
    // on that channel succeeds, and the parsed size matches.
    let addr: u32 = 0x0000_0040;
    let mut mb = MailBox::new(addr);
    let word = mb.send_mail(&build_size_request(1920, 1080), MAIL_TAGS).unwrap();
    assert_eq!(word, (8u32 & 0xF) | ((addr >> 4) << 4));
    let r = mb.recv_mail(MAIL_TAGS, word, &size_echo(1920, 1080, 32, 1));
    assert_eq!(r, Ok(8));
    let (w, h, depth) = mb.parse_size_response();
    assert_eq!(w, 1920);
    assert_eq!(h, 1080);
    assert_eq!(depth, ColorDepth::ARGB32);
}

#[test]
fn compatible_name() {
    let mb = MailBox::new(0);
    assert_eq!(mb.compatible(), "BCM Mailbox");
}
