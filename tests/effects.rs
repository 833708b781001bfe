use lcd_button::effects::{
    flap_frame, flap_ticks, plan_flap, plan_shift, BlinkRun, BlinkStep, FlipStyle, ShiftDir,
};

fn frame(text: &str, style: FlipStyle, stagger: u8, tick: u64) -> Vec<Option<u8>> {
    flap_frame(&text.as_bytes().to_vec(), style, stagger, tick)
}

#[test]
fn shift_takes_wraparound_when_shorter() {
    assert_eq!(plan_shift(0, 38, 40), (ShiftDir::Left, 2));
}

#[test]
fn shift_tie_moves_right_every_time() {
    for _ in 0..3 {
        assert_eq!(plan_shift(0, 20, 40), (ShiftDir::Right, 20));
    }
    assert_eq!(plan_shift(20, 0, 40), (ShiftDir::Right, 20));
}

#[test]
fn shift_direct_paths() {
    assert_eq!(plan_shift(5, 9, 40), (ShiftDir::Right, 4));
    assert_eq!(plan_shift(9, 5, 40), (ShiftDir::Left, 4));
    assert_eq!(plan_shift(39, 1, 40), (ShiftDir::Right, 2));
    assert_eq!(plan_shift(7, 7, 40), (ShiftDir::Right, 0));
}

#[test]
fn blink_three_cycles() {
    let mut run = BlinkRun::new(3, 500000);
    let mut steps = Vec::new();
    while let Some(s) = run.next_step() {
        steps.push(s);
    }
    assert_eq!(steps.len(), 6);
    for (k, s) in steps.iter().enumerate() {
        assert_eq!(*s, BlinkStep { delay_us: 250000, visible: k % 2 == 1 });
    }
    assert!(steps[5].visible);
    assert_eq!(run.next_step(), None);
}

#[test]
fn blink_zero_cycles_is_empty() {
    let mut run = BlinkRun::new(0, 1000);
    assert_eq!(run.next_step(), None);
}

#[test]
fn flap_simultaneous_settles_together() {
    let text = b"2061".to_vec();
    let ticks = flap_ticks(&text, FlipStyle::Simultaneous, 0);
    assert_eq!(ticks, 23);
    let last = frame("2061", FlipStyle::Simultaneous, 0, 22);
    assert_eq!(last, vec![Some(b'2'), Some(b'0'), Some(b'6'), Some(b'1')]);
    let before = frame("2061", FlipStyle::Simultaneous, 0, 21);
    assert_eq!(before, vec![Some(b'1'), Some(b'/'), Some(b'5'), Some(b'0')]);
    let first = frame("2061", FlipStyle::Simultaneous, 0, 0);
    assert_eq!(first, vec![Some(b' '), Some(b' '), Some(b' '), Some(b' ')]);
    for t in 0..22 {
        let f = frame("2061", FlipStyle::Simultaneous, 0, t);
        for (i, c) in b"2061".iter().enumerate() {
            assert_ne!(f[i], Some(*c));
        }
    }
}

#[test]
fn flap_sequential_staggers_positions() {
    let text = b"DCL".to_vec();
    let timing = plan_flap(&text, FlipStyle::Sequential, Some(10), 150000, Some(250000));
    assert_eq!(timing.ticks, 65);
    assert_eq!(timing.step_delay_us, 150000);
    assert_eq!(timing.settle_delay_us, 250000);
    assert_eq!(frame("DCL", FlipStyle::Sequential, 10, 9), vec![Some(b')'), None, None]);
    assert_eq!(frame("DCL", FlipStyle::Sequential, 10, 10), vec![Some(b'*'), Some(b' '), None]);
    assert_eq!(frame("DCL", FlipStyle::Sequential, 10, 36)[0], Some(b'D'));
    assert_eq!(frame("DCL", FlipStyle::Sequential, 10, 44)[1], Some(b'B'));
    assert_eq!(frame("DCL", FlipStyle::Sequential, 10, 45)[1], Some(b'C'));
    assert_eq!(frame("DCL", FlipStyle::Sequential, 10, 63)[2], Some(b'K'));
    assert_eq!(
        frame("DCL", FlipStyle::Sequential, 10, 64),
        vec![Some(b'D'), Some(b'C'), Some(b'L')]
    );
}

#[test]
fn flap_off_ramp_glyph_written_directly() {
    let f = frame("A~", FlipStyle::Simultaneous, 0, 0);
    assert_eq!(f[1], Some(b'~'));
    assert_eq!(f[0], Some(b' '));
    let g = frame("~", FlipStyle::Sequential, 3, 0);
    assert_eq!(g, vec![Some(b'~')]);
    assert_eq!(flap_ticks(&b"~".to_vec(), FlipStyle::Sequential, 3), 1);
}

#[test]
fn flap_empty_text() {
    let timing = plan_flap(&Vec::new(), FlipStyle::Simultaneous, None, 1, None);
    assert_eq!(timing.ticks, 0);
    assert_eq!(timing.settle_delay_us, 0);
}

