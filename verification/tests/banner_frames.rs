use erc20_cron::banner::{cut_line, fade_frame, frame_offset, LineCut, Noise, NOISE_WIDTH};

#[test]
fn noise_is_a_fixed_sequence() {
    let mut noise = Noise::new();
    let drawn: Vec<u8> = (0..12).map(|_| noise.next_char()).collect();
    assert_eq!(String::from_utf8(drawn).unwrap(), "@oO*...oo**.");
}

#[test]
fn noise_for_a_line_is_five_characters() {
    assert_eq!(NOISE_WIDTH, 5);
    let mut noise = Noise::new();
    assert_eq!(noise.fill(), b"@oO*.".to_vec());
    assert_eq!(noise.fill(), b"..oo*".to_vec());
    let mut stepped = Noise::new();
    for _ in 0..10 {
        stepped.next_char();
    }
    assert_eq!(noise, stepped);
}

#[test]
fn lines_are_uncovered_from_the_left_and_from_the_top() {
    assert_eq!(frame_offset(0, 0), 5);
    assert_eq!(frame_offset(1, 0), 5);
    assert_eq!(frame_offset(2, 0), 5);
    assert_eq!(frame_offset(3, 0), 6);
    assert_eq!(frame_offset(0, 4), 1);
    assert_eq!(frame_offset(0, 5), 0);
    assert_eq!(frame_offset(0, 9), 0);
    assert_eq!(frame_offset(30, 9), 6);
    assert_eq!(frame_offset(usize::MAX, 0), usize::MAX / 3 + 5);
    assert_eq!(frame_offset(0, usize::MAX), 0);
}

#[test]
fn line_is_cut_where_it_is_still_covered() {
    assert_eq!(cut_line(10, 0, 0), LineCut { shown: 5, noise: 5, rest_from: 6 });
    assert_eq!(cut_line(7, 0, 0), LineCut { shown: 5, noise: 2, rest_from: 6 });
    assert_eq!(cut_line(6, 0, 0), LineCut { shown: 5, noise: 1, rest_from: 6 });
    assert_eq!(cut_line(5, 0, 0), LineCut { shown: 5, noise: 0, rest_from: 5 });
    assert_eq!(cut_line(3, 0, 0), LineCut { shown: 3, noise: 0, rest_from: 3 });
    assert_eq!(cut_line(0, 0, 0), LineCut { shown: 0, noise: 0, rest_from: 0 });
    assert_eq!(cut_line(4, 0, 8), LineCut { shown: 0, noise: 4, rest_from: 1 });
    assert!(cut_line(4, 0, 8).covered());
    assert!(!cut_line(5, 0, 0).covered());
}

#[test]
fn frame_draws_noise_only_for_covered_lines() {
    let lengths = vec![10, 3, 8, 0, 2];
    let mut noise = Noise::new();
    let frame = fade_frame(&lengths, 0, &mut noise);
    assert!(frame.more);
    let cuts: Vec<LineCut> = frame.lines.iter().map(|l| l.cut).collect();
    assert_eq!(
        cuts,
        vec![
            LineCut { shown: 5, noise: 5, rest_from: 6 },
            LineCut { shown: 3, noise: 0, rest_from: 3 },
            LineCut { shown: 3, noise: 5, rest_from: 4 },
            LineCut { shown: 0, noise: 0, rest_from: 0 },
            LineCut { shown: 1, noise: 1, rest_from: 2 },
        ]
    );
    let drawn: Vec<String> =
        frame.lines.iter().map(|l| String::from_utf8(l.noise.clone()).unwrap()).collect();
    assert_eq!(drawn, vec!["@oO*.", "", "..oo*", "", "*"]);
    let mut expected = Noise::new();
    for _ in 0..15 {
        expected.next_char();
    }
    assert_eq!(noise, expected);
}

#[test]
fn fade_in_comes_to_an_end() {
    let lengths = vec![10, 3, 8, 0, 2];
    let mut noise = Noise::new();
    let mut frames = 0;
    loop {
        let frame = fade_frame(&lengths, frames, &mut noise);
        assert_eq!(frame.lines.len(), 5);
        if !frame.more {
            for (line, len) in frame.lines.iter().zip(lengths.iter()) {
                assert_eq!(line.cut, LineCut { shown: *len, noise: 0, rest_from: *len });
                assert!(line.noise.is_empty());
            }
            break;
        }
        frames += 1;
    }
    assert_eq!(frames, 15);
    assert!(!fade_frame(&vec![], 0, &mut noise).more);
}
