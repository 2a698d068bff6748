use std::collections::{BTreeMap, BTreeSet};

use termway::kitty::{
    begin_synchronized_update, encode_passthrough, end_synchronized_update, push_apc,
    validate_placement, KittyError, Renderer, Transport, ANCHOR_IMAGE_OFFSET, MAX_TILE_INDEX,
    PAYLOAD_CHUNK_SIZE, SECOND_ATLAS_OFFSET,
};
use termway::pixels::RgbImage;
use termway::placeholder::{diacritic, DIACRITIC_COUNT, DIACRITIC_RANGES, PLACEHOLDER};
use termway::render::{RasterTile, ViewportRect};
use termway::selection::{
    detect_transport, image_id_base, supports_kitty_graphics, supports_relative_placements,
    tmux_client_terminal, tmux_passthrough, DetectionStep, GraphicsMode, Selection,
    TerminalEnvironment, TmuxReply, TransportError,
};

fn flatten(segments: Vec<Vec<u8>>) -> Vec<u8> {
    segments.into_iter().flatten().collect()
}

fn text(segments: Vec<Vec<u8>>) -> String {
    String::from_utf8(flatten(segments)).unwrap()
}

fn renderer(transport: Transport, image_id_base: u32) -> Renderer {
    Renderer {
        transport,
        image_id_base,
        active_tiles: BTreeMap::new(),
        known_tile_images: BTreeSet::new(),
        active_atlas: None,
        atlas_dimensions: None,
    }
}

fn tile(image: RgbImage, index: u32, col: u16, row: u16, cols: u16, rows: u16) -> RasterTile {
    RasterTile { image, index, col, row, cols, rows }
}

fn rect(width: u32, height: u32) -> ViewportRect {
    ViewportRect { x: 0, y: 0, width, height }
}

fn noise(width: u32, height: u32) -> RgbImage {
    let mut image = RgbImage::new(width, height);
    for y in 0..height {
        for x in 0..width {
            let value = x.wrapping_mul(1_664_525) ^ y.wrapping_mul(1_013_904_223);
            image.put_pixel(x, y, [value as u8, (value >> 8) as u8, (value >> 16) as u8]);
        }
    }
    image
}

#[test]
fn recognizes_known_kitty_graphics_terminals() {
    assert!(supports_kitty_graphics("xterm-kitty"));
    assert!(supports_kitty_graphics("WezTerm"));
    assert!(supports_kitty_graphics("ghostty"));
    assert!(!supports_kitty_graphics("xterm-256color"));
    assert!(supports_relative_placements("xterm-kitty"));
    assert!(!supports_relative_placements("WezTerm"));
}

#[test]
fn process_image_namespace_fits_all_reserved_ids_in_24_bits() {
    for pid in [0, 1, 2046, 2047, u32::MAX] {
        let base = image_id_base(pid);
        assert!(base > 0);
        assert!(base + SECOND_ATLAS_OFFSET <= 0x00ff_ffff);
    }
    assert_ne!(image_id_base(100), image_id_base(101));
}

#[test]
fn wraps_apc_for_tmux_and_escapes_inner_escape_bytes() {
    let mut direct = Vec::new();
    push_apc(&mut direct, Transport::Direct, "a=d", &[]);
    assert_eq!(flatten(direct), b"\x1b_Ga=d;\x1b\\");

    let mut tmux = Vec::new();
    push_apc(&mut tmux, Transport::Tmux, "a=d", &[]);
    assert_eq!(flatten(tmux), b"\x1bPtmux;\x1b\x1b_Ga=d;\x1b\x1b\\\x1b\\");
}

#[test]
fn png_frames_are_chunked_and_replace_the_previous_image() {
    let mut renderer = renderer(Transport::Direct, 7);
    let first_tile = tile(RgbImage::from_pixel(2, 2, [1, 2, 3]), 0, 4, 2, 2, 1);
    let first = text(renderer.encode_tiles(&[first_tile], false).unwrap());
    assert!(first.contains("a=t,f=100,t=d,i=7,q=2,m=0"));
    assert!(first.contains("a=p,i=7,p=1,c=2,r=1,C=1,q=2,z=0"));
    assert!(!first.contains("a=d"));
    assert!(first.contains("\x1b[3;5H"));

    let replacement = tile(RgbImage::from_pixel(2, 2, [4, 5, 6]), 0, 4, 2, 2, 1);
    let second = text(renderer.encode_tiles(&[replacement], false).unwrap());
    let transmit = second.find("a=t,f=100,t=d,i=8").unwrap();
    let placement = second.find("a=p,i=8,p=1,c=2,r=1,C=1,q=2,z=0").unwrap();
    let delete = second.find("a=d,d=I,i=7,q=2").unwrap();
    assert!(transmit < placement && placement < delete);
    assert!(!second.contains("a=f"));
}

#[test]
fn each_tiled_upload_is_one_cancellable_protocol_transaction() {
    let mut renderer = renderer(Transport::Direct, 7);
    let segments = renderer.encode_tiles(&[tile(noise(128, 128), 0, 0, 0, 16, 8)], false).unwrap();
    assert_eq!(segments.len(), 1);
    let encoded = String::from_utf8_lossy(&segments[0]);
    assert!(encoded.matches("m=1").count() > 1);
    assert!(encoded.ends_with("\x1b\\"));
    assert!(encoded.contains("a=p,i=7"));
}

#[test]
fn atlas_upload_chunks_form_one_non_cancellable_protocol_transaction() {
    let mut renderer = renderer(Transport::Direct, 7);
    let segments = renderer.encode_atlas(&noise(256, 256), rect(256, 256), 32, 16).unwrap();
    assert_eq!(segments.len(), 2);
    let upload = String::from_utf8_lossy(&segments[0]);
    assert!(upload.matches("m=1").count() > 1);
    assert!(upload.contains("m=0"));
    assert!(!upload.contains("a=p"));
    assert!(segments[1].starts_with(&begin_synchronized_update()));
}

#[test]
fn tmux_tiles_are_relative_to_one_unicode_placeholder_anchor() {
    let mut renderer = renderer(Transport::Tmux, 0x12_3456);
    let relative = tile(RgbImage::from_pixel(2, 2, [1, 2, 3]), 0, 3, 4, 2, 2);
    renderer.encode_atlas(&RgbImage::new(4, 4), rect(4, 4), 4, 4).unwrap();
    let encoded = text(renderer.encode_tiles(&[relative], false).unwrap());
    assert!(!encoded.contains("U=1"));
    assert!(encoded.contains(&format!(
        "a=p,i=1193046,p=1,c=2,r=2,C=1,q=2,z=0,P={},Q=3,H=3,V=4",
        0x12_3456 + ANCHOR_IMAGE_OFFSET
    )));
    assert_eq!(encoded.matches(PLACEHOLDER).count(), 0);
}

#[test]
fn reset_replaces_the_grid_before_deleting_old_tiles() {
    let mut renderer = renderer(Transport::Direct, 7);
    let old = tile(RgbImage::from_pixel(2, 2, [1, 2, 3]), 3, 0, 0, 1, 1);
    renderer.encode_tiles(&[old], false).unwrap();

    let replacement = tile(RgbImage::from_pixel(1, 1, [4, 5, 6]), 0, 0, 0, 1, 1);
    let encoded = text(renderer.encode_tiles(&[replacement], true).unwrap());
    let delete = encoded.find("a=d,d=I,i=13,q=2").unwrap();
    let transmit = encoded.find("a=t,f=100,t=d,i=7").unwrap();
    let placement = encoded.find("a=p,i=7,p=1,c=1,r=1,C=1,q=2,z=0").unwrap();
    assert!(transmit < delete);
    assert!(transmit < placement && placement < delete);
    assert_eq!(renderer.active_tiles, BTreeMap::from([(0, 7)]));
}

#[test]
fn complete_kitty_diacritic_table_supports_wide_panes() {
    let expanded =
        DIACRITIC_RANGES.iter().map(|(start, end)| end - start + 1).sum::<u32>() as usize;
    assert_eq!(expanded, DIACRITIC_COUNT);
    assert_eq!(diacritic(0), Some('\u{0305}'));
    assert!(diacritic(239).is_some());
    assert!(diacritic(DIACRITIC_COUNT).is_none());
}

#[test]
fn atlas_reuses_terminal_pixels_for_later_crops() {
    let mut renderer = renderer(Transport::Direct, 7);
    let image = RgbImage::from_pixel(400, 240, [1, 2, 3]);
    let first = text(renderer.encode_atlas(&image, rect(400, 240), 80, 24).unwrap());
    assert!(first.contains("a=t,f=100,t=d,i=8197"));
    assert!(first.contains("a=p,i=8197,p=2,x=0,y=0,w=400,h=240,c=80,r=24,C=1,q=2,z=-1"));

    let crop = ViewportRect { x: 100, y: 60, width: 200, height: 120 };
    let preview = text(renderer.encode_atlas_placement(crop, 80, 24).unwrap());
    assert!(!preview.contains("a=t"));
    assert!(!preview.contains("iVBOR"));
    assert!(preview.contains("x=100,y=60,w=200,h=120"));
    assert!(preview.len() < 256, "{} preview bytes", preview.len());
}

#[test]
fn direct_atlas_preview_atomically_replaces_refined_tiles() {
    let mut renderer = renderer(Transport::Direct, 7);
    renderer.encode_atlas(&RgbImage::new(4, 4), rect(4, 4), 2, 2).unwrap();
    renderer.encode_tiles(&[tile(RgbImage::new(4, 4), 0, 0, 0, 2, 2)], false).unwrap();

    let segments = renderer.encode_atlas_placement(rect(2, 2), 2, 2).unwrap();
    assert_eq!(segments.len(), 1);
    let transition = &segments[0];
    assert!(transition.starts_with(&begin_synchronized_update()));
    assert!(transition.ends_with(&end_synchronized_update()));
    let encoded = String::from_utf8_lossy(transition);
    let placement = encoded.find("x=0,y=0,w=2,h=2").unwrap();
    let deletion = encoded.find("a=d,d=I,i=7").unwrap();
    assert!(placement < deletion);
}

#[test]
fn tmux_atlas_preview_passes_one_synchronized_transaction_to_kitty() {
    let mut renderer = renderer(Transport::Tmux, 7);
    renderer.encode_atlas(&RgbImage::new(4, 4), rect(4, 4), 2, 2).unwrap();

    let segments = renderer.encode_atlas_placement(rect(2, 2), 2, 2).unwrap();
    assert_eq!(segments.len(), 1);
    let begin = encode_passthrough(Transport::Tmux, &begin_synchronized_update());
    let end = encode_passthrough(Transport::Tmux, &end_synchronized_update());
    assert!(segments[0].starts_with(&begin));
    assert!(segments[0].ends_with(&end));
    let encoded = String::from_utf8_lossy(&segments[0]);
    assert_eq!(encoded.matches(PLACEHOLDER).count(), 0);
    assert!(encoded.contains("x=0,y=0,w=2,h=2"));
    assert!(encoded.contains("P=8196,Q=3,H=0,V=0"));
}

#[test]
fn tmux_atlas_uses_one_anchor_even_in_a_240_column_pane() {
    let mut renderer = renderer(Transport::Tmux, 7);
    let encoded = renderer.encode_atlas(&RgbImage::new(240, 1), rect(240, 1), 240, 1).unwrap();
    let encoded = text(encoded);
    assert_eq!(encoded.matches(PLACEHOLDER).count(), 1);
    assert!(encoded.contains(";58;2;0;0;3m"));
    assert!(encoded.contains(&format!(
        "{PLACEHOLDER}{}{}",
        diacritic(0).unwrap(),
        diacritic(0).unwrap()
    )));
    assert!(encoded.contains("c=240,r=1,C=1,q=2,z=-1,P=8196,Q=3,H=0,V=0"));
}

#[test]
fn tmux_atlas_rebuild_restores_the_screen_anchor_after_resize() {
    let mut renderer = renderer(Transport::Tmux, 7);
    renderer.encode_atlas(&RgbImage::new(4, 4), rect(4, 4), 2, 2).unwrap();
    let rebuilt = text(renderer.encode_atlas(&RgbImage::new(4, 4), rect(4, 4), 3, 3).unwrap());
    assert_eq!(rebuilt.matches(PLACEHOLDER).count(), 1);
    assert!(rebuilt.contains("p=3,c=1,r=1,C=1,q=2,z=-2,U=1"));
    assert!(rebuilt.contains("c=3,r=3,C=1,q=2,z=-1,P=8196,Q=3"));
    assert!(!rebuilt.contains("a=t,f=100,t=d,i=8196"));
}

#[test]
fn atlas_transition_reclaims_both_generations_of_replaced_tiles() {
    let mut renderer = renderer(Transport::Direct, 7);
    for color in [[1, 2, 3], [4, 5, 6]] {
        let replaced = tile(RgbImage::from_pixel(1, 1, color), 0, 0, 0, 1, 1);
        renderer.encode_tiles(&[replaced], false).unwrap();
    }
    let encoded = text(renderer.encode_atlas(&RgbImage::new(1, 1), rect(1, 1), 1, 1).unwrap());
    assert!(encoded.contains("a=d,d=I,i=7,q=2"));
    assert!(encoded.contains("a=d,d=I,i=8,q=2"));
    assert!(renderer.known_tile_images.is_empty());
}

fn decoded_base64(text: &str) -> Vec<u8> {
    let alphabet = "ABCDEFGHIJKLMNOPQRSTUVWXYZabcdefghijklmnopqrstuvwxyz0123456789+/";
    let mut bits: u32 = 0;
    let mut count = 0;
    let mut bytes = Vec::new();
    for symbol in text.trim_end_matches('=').chars() {
        bits = bits << 6 | alphabet.find(symbol).unwrap() as u32;
        count += 6;
        if count >= 8 {
            count -= 8;
            bytes.push((bits >> count) as u8);
            bits &= (1 << count) - 1;
        }
    }
    assert_eq!(text.len() % 4, 0);
    bytes
}

/// The payload of the commands in an upload, and how many there are.
fn payload(upload: &str) -> (String, usize) {
    let mut joined = String::new();
    let mut count = 0;
    for command in upload.split("\u{1b}_G").skip(1) {
        let end = command.find('\u{1b}').unwrap();
        let (control, chunk) = command[..end].split_once(';').unwrap();
        if control.contains("m=") {
            assert!(!chunk.is_empty() && chunk.len() <= PAYLOAD_CHUNK_SIZE);
            joined.push_str(chunk);
            count += 1;
        }
    }
    (joined, count)
}

#[test]
fn uploads_carry_a_png_file_in_base64() {
    let mut renderer = renderer(Transport::Direct, 7);
    let image = RgbImage::from_raw(2, 1, vec![10, 20, 30, 40, 50, 60]).unwrap();
    let encoded = text(renderer.encode_tiles(&[tile(image, 0, 0, 0, 1, 1)], false).unwrap());
    let (payload, count) = payload(&encoded);
    assert_eq!(count, 1);
    let decoded = image::load_from_memory(&decoded_base64(&payload)).unwrap().to_rgb8();
    assert_eq!(decoded.dimensions(), (2, 1));
    assert_eq!(decoded.into_raw(), vec![10, 20, 30, 40, 50, 60]);
}

#[test]
fn chunks_make_up_the_file_again() {
    let image = noise(200, 150);
    let mut direct = renderer(Transport::Direct, 7);
    let encoded = text(direct.encode_atlas(&image, rect(200, 150), 20, 10).unwrap());
    let (whole, count) = payload(&encoded);
    assert!(count > 2);
    assert_eq!(encoded.matches("m=0").count(), 1);
    let decoded = image::load_from_memory(&decoded_base64(&whole)).unwrap().to_rgb8();
    assert!(decoded.into_raw() == image.data);
}

#[test]
fn tmux_hands_commands_on_unchanged() {
    let command = b"\x1b_Ga=d;\x1b\x1b\\".to_vec();
    let wrapped = encode_passthrough(Transport::Tmux, &command);
    let inner = &wrapped[b"\x1bPtmux;".len()..wrapped.len() - 2];
    let mut unwrapped = Vec::new();
    let mut i = 0;
    while i < inner.len() {
        unwrapped.push(inner[i]);
        i += if inner[i] == 0x1b { 2 } else { 1 };
    }
    assert_eq!(unwrapped, command);
    assert_eq!(encode_passthrough(Transport::Direct, &command), command);
}

#[test]
fn placements_are_checked() {
    let outside = ViewportRect { x: 1, y: 0, width: 4, height: 4 };
    assert_eq!(
        validate_placement((4, 4), outside, 1, 1),
        Err(KittyError::CropOutside(outside, 4, 4))
    );
    assert_eq!(
        KittyError::CropOutside(outside, 4, 4).message(),
        "Kitty source crop ViewportRect { x: 1, y: 0, width: 4, height: 4 } is outside image (4, 4)"
    );
    assert!(validate_placement((4, 4), rect(0, 4), 1, 1).is_err());
    assert_eq!(validate_placement((4, 4), rect(4, 4), 0, 1), Err(KittyError::EmptyPlacement));
    assert_eq!(validate_placement((4, 4), rect(4, 4), 1, 1), Ok(()));
    let mut direct = renderer(Transport::Direct, 7);
    assert_eq!(
        direct.encode_atlas_placement(rect(1, 1), 1, 1).err(),
        Some(KittyError::AtlasMissing)
    );
    let mut tmux = renderer(Transport::Tmux, 7);
    assert_eq!(tmux.encode_tiles(&[], false).err(), Some(KittyError::AnchorMissing));
    let far = tile(RgbImage::new(1, 1), MAX_TILE_INDEX + 1, 0, 0, 1, 1);
    assert_eq!(
        direct.encode_tiles(&[far], false).err(),
        Some(KittyError::TileIndex(MAX_TILE_INDEX + 1))
    );
    assert_eq!(
        KittyError::TileIndex(4095).message(),
        "Kitty tile index 4095 exceeds 4094"
    );
}

#[test]
fn everything_is_deleted_at_the_end() {
    let mut tmux = renderer(Transport::Tmux, 8192);
    assert!(tmux.is_tmux() && !tmux.has_atlas());
    assert!(tmux.encode_delete().is_empty());
    tmux.encode_atlas(&RgbImage::new(4, 4), rect(4, 4), 2, 2).unwrap();
    tmux.encode_tiles(&[tile(RgbImage::new(1, 1), 5, 0, 0, 1, 1)], false).unwrap();
    assert!(tmux.has_atlas());
    let deleted = text(tmux.encode_delete());
    for id in [8192 + 10, 8192 + 0x1ffe, 8192 + 0x1fff, 8192 + 0x1ffd] {
        assert!(deleted.contains(&format!("a=d,d=I,i={id},q=2")), "{id}");
    }
    assert!(!tmux.has_atlas());
    assert!(tmux.encode_delete().is_empty());
}

#[test]
fn atlas_images_take_turns() {
    let mut direct = renderer(Transport::Direct, 0);
    direct.encode_atlas(&RgbImage::new(2, 2), rect(2, 2), 1, 1).unwrap();
    assert_eq!(direct.active_atlas, Some(0x1ffe));
    let second = text(direct.encode_atlas(&RgbImage::new(2, 2), rect(2, 2), 1, 1).unwrap());
    assert_eq!(direct.active_atlas, Some(0x1fff));
    let shown = second.find("a=p,i=8191").unwrap();
    let deleted = second.find("a=d,d=I,i=8190").unwrap();
    assert!(shown < deleted);
    direct.encode_atlas(&RgbImage::new(2, 2), rect(2, 2), 1, 1).unwrap();
    assert_eq!(direct.active_atlas, Some(0x1ffe));
}

fn environment(tmux: bool, variable: bool, term: &str, program: &str) -> TerminalEnvironment {
    TerminalEnvironment {
        tmux,
        graphics_variable: variable,
        term: term.to_owned(),
        program: program.to_owned(),
    }
}

fn printed(output: &str) -> TmuxReply {
    TmuxReply::Output(output.to_owned())
}

#[test]
fn transports_are_detected_step_by_step() {
    let direct = |env: &TerminalEnvironment| matches!(
        detect_transport(env),
        DetectionStep::Done(Ok(Transport::Direct))
    );
    assert!(direct(&environment(false, true, "", "")));
    assert!(direct(&environment(false, false, "xterm-kitty", "")));
    assert!(direct(&environment(false, false, "xterm", "WezTerm")));
    assert!(matches!(
        detect_transport(&environment(false, false, "xterm", "")),
        DetectionStep::Done(Err(TransportError::NotAdvertised))
    ));
    assert!(matches!(
        detect_transport(&environment(true, true, "", "")),
        DetectionStep::AskPassthrough
    ));
    assert!(matches!(tmux_passthrough(printed("on\n")), DetectionStep::AskClient));
    assert!(matches!(tmux_passthrough(printed(" all ")), DetectionStep::AskClient));
    let off = match tmux_passthrough(printed("off\n")) {
        DetectionStep::Done(Err(error)) => error.message(),
        _ => panic!("passthrough was taken to be on"),
    };
    assert_eq!(off, "tmux has allow-passthrough=\"off\"; enable it or use --graphics ansi");
    assert!(matches!(
        tmux_passthrough(TmuxReply::Unavailable),
        DetectionStep::Done(Err(TransportError::PassthroughUnavailable))
    ));
    assert!(matches!(
        tmux_passthrough(TmuxReply::Failed),
        DetectionStep::Done(Err(TransportError::PassthroughFailed))
    ));
    assert!(matches!(tmux_client_terminal(printed("xterm-kitty\n")), Ok(Transport::Tmux)));
    let message = |reply| tmux_client_terminal(reply).err().unwrap().message();
    assert_eq!(
        message(printed("xterm\n")),
        "tmux client terminal \"xterm\" is not known to support Kitty graphics"
    );
    assert_eq!(
        message(printed("WezTerm\n")),
        "tmux client terminal \"WezTerm\" does not advertise Kitty relative placements; use --graphics ansi"
    );
    assert_eq!(message(TmuxReply::Unavailable), "cannot query the tmux client terminal");
    assert_eq!(message(TmuxReply::Failed), "tmux client terminal query failed");
}

#[test]
fn graphics_are_chosen_by_mode_and_detection() {
    assert!(matches!(
        Selection::select(GraphicsMode::Ansi, None, 1),
        Ok(Selection::Ansi { reason: None })
    ));
    match Selection::select(GraphicsMode::Auto, Some(Ok(Transport::Direct)), 4) {
        Ok(Selection::Kitty(renderer)) => {
            assert!(!renderer.is_tmux());
            assert_eq!(renderer.image_id_base, 5 * 8192);
        }
        _ => panic!("Kitty graphics were not chosen"),
    }
    match Selection::select(GraphicsMode::Auto, Some(Err(TransportError::NotAdvertised)), 1) {
        Ok(Selection::Ansi { reason: Some(reason) }) => {
            assert_eq!(reason, "terminal does not advertise Kitty graphics support");
        }
        _ => panic!("cells were not chosen"),
    }
    assert!(matches!(
        Selection::select(GraphicsMode::Kitty, Some(Err(TransportError::NotAdvertised)), 1),
        Err(TransportError::NotAdvertised)
    ));
}
