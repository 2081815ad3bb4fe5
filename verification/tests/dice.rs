use password_generator::dice::generate_dice_rolls;
use password_generator::dice::roll_code;
use password_generator::dice::roll_dice;
use password_generator::dice::DICE_PER_ROLL;
use password_generator::dice::FACES;
use rand::rngs::StdRng;
use rand::SeedableRng;

fn is_roll_code(code: &str) -> bool {
    code.chars().count() == 5 && code.chars().all(|c| ('1'..='6').contains(&c))
}

#[test]
fn a_roll_has_five_dice_with_six_faces() {
    assert_eq!(DICE_PER_ROLL, 5);
    assert_eq!(FACES, 6);
}

#[test]
fn roll_code_writes_faces_in_roll_order() {
    assert_eq!(roll_code(&vec![1, 2, 3, 4, 5]), "12345");
    assert_eq!(roll_code(&vec![6, 6, 6, 6, 6]), "66666");
    assert_eq!(roll_code(&vec![1, 1, 1, 1, 1]), "11111");
    assert_eq!(roll_code(&vec![3, 1, 6, 2, 4]), "31624");
}

#[test]
fn roll_code_of_other_lengths() {
    assert_eq!(roll_code(&Vec::new()), "");
    assert_eq!(roll_code(&vec![4]), "4");
    assert_eq!(roll_code(&vec![1, 2, 3, 4, 5, 6]), "123456");
}

#[test]
fn generated_rolls_are_roll_codes() {
    for _ in 0..200 {
        let code = generate_dice_rolls().unwrap();
        assert!(is_roll_code(&code));
    }
}

#[test]
fn rolls_never_show_zero_or_seven() {
    let mut rng = StdRng::seed_from_u64(7);
    for _ in 0..2000 {
        let code = roll_dice(&mut rng);
        assert_eq!(code.len(), 5);
        for c in code.chars() {
            assert!(c != '0' && c != '7' && c != '8' && c != '9');
            assert!(c >= '1' && c <= '6');
        }
    }
}

#[test]
fn rolls_with_one_seed_repeat() {
    let mut first = StdRng::seed_from_u64(2024);
    let mut second = StdRng::seed_from_u64(2024);
    for _ in 0..50 {
        assert_eq!(roll_dice(&mut first), roll_dice(&mut second));
    }
}

#[test]
fn every_face_shows_at_every_position() {
    let mut rng = StdRng::seed_from_u64(99);
    let mut seen = [[false; 6]; 5];
    for _ in 0..500 {
        let code = roll_dice(&mut rng);
        for (position, c) in code.chars().enumerate() {
            seen[position][(c as usize) - ('1' as usize)] = true;
        }
    }
    for position in 0..5 {
        for face in 0..6 {
            assert!(seen[position][face]);
        }
    }
}

#[test]
fn faces_are_uniform_at_every_position() {
    let samples = 12000;
    let mut counts = [[0u32; 6]; 5];
    for _ in 0..samples {
        let code = generate_dice_rolls().unwrap();
        for (position, c) in code.chars().enumerate() {
            counts[position][(c as usize) - ('1' as usize)] += 1;
        }
    }
    let expected = samples as f64 / 6.0;
    for position in 0..5 {
        let mut chi_square = 0.0;
        for face in 0..6 {
            let diff = counts[position][face] as f64 - expected;
            chi_square += diff * diff / expected;
        }
        // Five degrees of freedom: a fair die stays below 35 but for about
        // one run in a million.
        assert!(chi_square < 35.0);
    }
}

#[test]
fn successive_rolls_differ() {
    let mut codes = Vec::new();
    for _ in 0..20 {
        codes.push(generate_dice_rolls().unwrap());
    }
    let first = codes[0].clone();
    assert!(codes.iter().any(|code| *code != first));
}
