//! Rolling dice: five faces, each from 1 to 6, written as five digits.

use crate::kinds::GenerationError;
use crate::random::draw_in_range;
use crate::random::seed_from_os;
use crate::text::decimal_digit;
use crate::text::digit_char;
use rand::rngs::StdRng;
use vstd::prelude::*;

verus! {

/// The number of dice in one roll.
pub const DICE_PER_ROLL: usize = 5;

/// The number of faces of a die.
pub const FACES: u8 = 6;

/// Whether `face` is a face of a die.
pub open spec fn is_face(face: u8) -> bool {
    1 <= face <= FACES
}

/// Whether `c` is the digit of a face of a die.
pub open spec fn is_face_digit(c: char) -> bool {
    '1' <= c && c <= '6'
}

/// Whether `code` is a roll code: five digits, each from 1 to 6.
pub open spec fn is_roll_code(code: Seq<char>) -> bool {
    &&& code.len() == DICE_PER_ROLL
    &&& forall|i: int| 0 <= i < code.len() ==> is_face_digit(#[trigger] code[i])
}

/// The digits of `faces`, in roll order.
pub open spec fn code_of_faces(faces: Seq<u8>) -> Seq<char> {
    faces.map_values(|face: u8| decimal_digit(face))
}

/// Five faces give a roll code.
pub proof fn lemma_faces_give_roll_code(faces: Seq<u8>)
    requires
        faces.len() == DICE_PER_ROLL,
        forall|i: int| 0 <= i < faces.len() ==> is_face(#[trigger] faces[i]),
    ensures
        is_roll_code(code_of_faces(faces)),
{
    assert forall|i: int| 0 <= i < code_of_faces(faces).len() implies is_face_digit(
        #[trigger] code_of_faces(faces)[i],
    ) by {
        assert(is_face(faces[i]));
    }
}

/// Writes the faces of a roll as digits, in roll order.
pub fn roll_code(faces: &Vec<u8>) -> (r: String)
    requires
        forall|i: int| 0 <= i < faces.len() ==> is_face(#[trigger] faces[i]),
    ensures
        r@ == code_of_faces(faces@),
{
    let mut code = String::new();
    let mut i: usize = 0;
    while i < faces.len()
        invariant
            i <= faces.len(),
            forall|k: int| 0 <= k < faces.len() ==> is_face(#[trigger] faces[k]),
            code@ == code_of_faces(faces@).take(i as int),
        decreases faces.len() - i,
    {
        code.push(digit_char(faces[i]));
        i += 1;
    }
    code
}

/// Rolls five dice with `rng` and writes the roll code.
pub fn roll_dice(rng: &mut StdRng) -> (r: String)
    ensures
        is_roll_code(r@),
{
    let mut faces: Vec<u8> = Vec::new();
    let mut i: usize = 0;
    while i < DICE_PER_ROLL
        invariant
            i <= DICE_PER_ROLL,
            faces.len() == i,
            forall|k: int| 0 <= k < faces.len() ==> is_face(#[trigger] faces[k]),
        decreases DICE_PER_ROLL - i,
    {
        let face = draw_in_range(rng, 1, FACES as usize + 1);
        faces.push(face as u8);
        i += 1;
    }
    proof {
        lemma_faces_give_roll_code(faces@);
    }
    roll_code(&faces)
}

/// Rolls five dice with a generator of its own, freshly seeded by the
/// operating system, so that no two calls share state.
pub fn generate_dice_rolls() -> (r: Result<String, GenerationError>)
    ensures
        match r {
            Ok(code) => is_roll_code(code@),
            Err(e) => e == GenerationError::EntropyFailure,
        },
{
    match seed_from_os() {
        Ok(mut rng) => Ok(roll_dice(&mut rng)),
        Err(_) => Err(GenerationError::EntropyFailure),
    }
}

} // verus!
