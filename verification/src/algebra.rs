//! What holds of the transform algebra in this arithmetic, exactly.

use crate::mat4::cell;
use crate::mat4::cofactor4;
use crate::mat4::det4;
use crate::mat4::identity4;
use crate::error::term;
use crate::mat2::approx_cells;
use crate::error::MatrixError;
use crate::mat4::inverse4;
use crate::mat4::inverse_cell;
use crate::mat4::inverse_of;
use crate::mat4::lemma_inverse_cells;
use crate::mat4::lemma_inverse_from_cells;
use crate::mat4::invertible;
use crate::mat4::point_image;
use crate::mat4::product4;
use crate::mat4::rotation_x;
use crate::mat4::rotation_y;
use crate::mat4::rotation_z;
use crate::mat4::scaling;
use crate::mat4::sub4;
use crate::mat4::translation;
use crate::mat4::transposed;
use crate::point::Point;
use crate::scalar::is_equal;
use crate::scalar::lemma_checked_units;
use crate::scalar::lemma_nearest_error;
use crate::scalar::lemma_over_self;
use crate::scalar::lemma_regrouped;
use crate::scalar::lemma_there_and_back;
use crate::scalar::lemma_times_commutes;
use crate::scalar::magnitude;
use crate::scalar::nearest;
use crate::scalar::lemma_times_one;
use crate::scalar::lemma_times_zero;
use crate::scalar::Scalar;
use crate::scalar::SCALE;
use vstd::prelude::*;

verus! {

/// Products with zero and one, for every number at once.
proof fn lemma_zero_and_one()
    ensures
        forall|a: Scalar| #[trigger] Scalar::zero().times(a) == Scalar::zero(),
        forall|a: Scalar| #[trigger] a.times(Scalar::zero()) == Scalar::zero(),
        forall|a: Scalar| #[trigger] Scalar::one().times(a) == a,
        forall|a: Scalar| #[trigger] a.times(Scalar::one()) == a,
        forall|a: Scalar| #[trigger] Scalar::zero().times_checked(a) == Some(Scalar::zero()),
        forall|a: Scalar| #[trigger] a.times_checked(Scalar::zero()) == Some(Scalar::zero()),
        forall|a: Scalar| #[trigger] Scalar::one().times_checked(a) == Some(a),
        forall|a: Scalar| #[trigger] a.times_checked(Scalar::one()) == Some(a),
{
    assert forall|a: Scalar| #[trigger] Scalar::zero().times_checked(a) == Some(Scalar::zero()) by {
        lemma_checked_units(a);
    }
    assert forall|a: Scalar| #[trigger] a.times_checked(Scalar::zero()) == Some(Scalar::zero()) by {
        lemma_checked_units(a);
    }
    assert forall|a: Scalar| #[trigger] Scalar::one().times_checked(a) == Some(a) by {
        lemma_checked_units(a);
    }
    assert forall|a: Scalar| #[trigger] a.times_checked(Scalar::one()) == Some(a) by {
        lemma_checked_units(a);
    }
    assert forall|a: Scalar| #[trigger] Scalar::zero().times(a) == Scalar::zero() by {
        lemma_times_zero(a);
    }
    assert forall|a: Scalar| #[trigger] a.times(Scalar::zero()) == Scalar::zero() by {
        lemma_times_zero(a);
    }
    assert forall|a: Scalar| #[trigger] Scalar::one().times(a) == a by {
        lemma_times_one(a);
    }
    assert forall|a: Scalar| #[trigger] a.times(Scalar::one()) == a by {
        lemma_times_one(a);
    }
}

proof fn lemma_translation_cofactor_00(x: Scalar, y: Scalar, z: Scalar)
    requires
        x@ != i64::MIN,
        y@ != i64::MIN,
        z@ != i64::MIN,
    ensures
        cofactor4(translation(x, y, z), 0, 0) == Some(
            translation(x.negated(), y.negated(), z.negated())[0],
        ),
{
    lemma_zero_and_one();
    let t = translation(x, y, z);
    assert(sub4(t, 0, 0) =~= seq![
        Scalar::one(),
        Scalar::zero(),
        y,
        Scalar::zero(),
        Scalar::one(),
        z,
        Scalar::zero(),
        Scalar::zero(),
        Scalar::one(),
    ]);
    assert(cofactor4(t, 0, 0) == Some(Scalar::one()));
}

proof fn lemma_translation_cofactor_01(x: Scalar, y: Scalar, z: Scalar)
    requires
        x@ != i64::MIN,
        y@ != i64::MIN,
        z@ != i64::MIN,
    ensures
        cofactor4(translation(x, y, z), 0, 1) == Some(
            translation(x.negated(), y.negated(), z.negated())[4],
        ),
{
    lemma_zero_and_one();
    let t = translation(x, y, z);
    assert(sub4(t, 0, 1) =~= seq![
        Scalar::zero(),
        Scalar::zero(),
        y,
        Scalar::zero(),
        Scalar::one(),
        z,
        Scalar::zero(),
        Scalar::zero(),
        Scalar::one(),
    ]);
    assert(cofactor4(t, 0, 1) == Some(Scalar::zero()));
}

proof fn lemma_translation_cofactor_02(x: Scalar, y: Scalar, z: Scalar)
    requires
        x@ != i64::MIN,
        y@ != i64::MIN,
        z@ != i64::MIN,
    ensures
        cofactor4(translation(x, y, z), 0, 2) == Some(
            translation(x.negated(), y.negated(), z.negated())[8],
        ),
{
    lemma_zero_and_one();
    let t = translation(x, y, z);
    assert(sub4(t, 0, 2) =~= seq![
        Scalar::zero(),
        Scalar::one(),
        y,
        Scalar::zero(),
        Scalar::zero(),
        z,
        Scalar::zero(),
        Scalar::zero(),
        Scalar::one(),
    ]);
    assert(cofactor4(t, 0, 2) == Some(Scalar::zero()));
}

proof fn lemma_translation_cofactor_03(x: Scalar, y: Scalar, z: Scalar)
    requires
        x@ != i64::MIN,
        y@ != i64::MIN,
        z@ != i64::MIN,
    ensures
        cofactor4(translation(x, y, z), 0, 3) == Some(
            translation(x.negated(), y.negated(), z.negated())[12],
        ),
{
    lemma_zero_and_one();
    let t = translation(x, y, z);
    assert(sub4(t, 0, 3) =~= seq![
        Scalar::zero(),
        Scalar::one(),
        Scalar::zero(),
        Scalar::zero(),
        Scalar::zero(),
        Scalar::one(),
        Scalar::zero(),
        Scalar::zero(),
        Scalar::zero(),
    ]);
    assert(cofactor4(t, 0, 3) == Some(Scalar::zero()));
}

proof fn lemma_translation_cofactor_10(x: Scalar, y: Scalar, z: Scalar)
    requires
        x@ != i64::MIN,
        y@ != i64::MIN,
        z@ != i64::MIN,
    ensures
        cofactor4(translation(x, y, z), 1, 0) == Some(
            translation(x.negated(), y.negated(), z.negated())[1],
        ),
{
    lemma_zero_and_one();
    let t = translation(x, y, z);
    assert(sub4(t, 1, 0) =~= seq![
        Scalar::zero(),
        Scalar::zero(),
        x,
        Scalar::zero(),
        Scalar::one(),
        z,
        Scalar::zero(),
        Scalar::zero(),
        Scalar::one(),
    ]);
    assert(cofactor4(t, 1, 0) == Some(Scalar::zero()));
}

proof fn lemma_translation_cofactor_11(x: Scalar, y: Scalar, z: Scalar)
    requires
        x@ != i64::MIN,
        y@ != i64::MIN,
        z@ != i64::MIN,
    ensures
        cofactor4(translation(x, y, z), 1, 1) == Some(
            translation(x.negated(), y.negated(), z.negated())[5],
        ),
{
    lemma_zero_and_one();
    let t = translation(x, y, z);
    assert(sub4(t, 1, 1) =~= seq![
        Scalar::one(),
        Scalar::zero(),
        x,
        Scalar::zero(),
        Scalar::one(),
        z,
        Scalar::zero(),
        Scalar::zero(),
        Scalar::one(),
    ]);
    assert(cofactor4(t, 1, 1) == Some(Scalar::one()));
}

proof fn lemma_translation_cofactor_12(x: Scalar, y: Scalar, z: Scalar)
    requires
        x@ != i64::MIN,
        y@ != i64::MIN,
        z@ != i64::MIN,
    ensures
        cofactor4(translation(x, y, z), 1, 2) == Some(
            translation(x.negated(), y.negated(), z.negated())[9],
        ),
{
    lemma_zero_and_one();
    let t = translation(x, y, z);
    assert(sub4(t, 1, 2) =~= seq![
        Scalar::one(),
        Scalar::zero(),
        x,
        Scalar::zero(),
        Scalar::zero(),
        z,
        Scalar::zero(),
        Scalar::zero(),
        Scalar::one(),
    ]);
    assert(cofactor4(t, 1, 2) == Some(Scalar::zero()));
}

proof fn lemma_translation_cofactor_13(x: Scalar, y: Scalar, z: Scalar)
    requires
        x@ != i64::MIN,
        y@ != i64::MIN,
        z@ != i64::MIN,
    ensures
        cofactor4(translation(x, y, z), 1, 3) == Some(
            translation(x.negated(), y.negated(), z.negated())[13],
        ),
{
    lemma_zero_and_one();
    let t = translation(x, y, z);
    assert(sub4(t, 1, 3) =~= seq![
        Scalar::one(),
        Scalar::zero(),
        Scalar::zero(),
        Scalar::zero(),
        Scalar::zero(),
        Scalar::one(),
        Scalar::zero(),
        Scalar::zero(),
        Scalar::zero(),
    ]);
    assert(cofactor4(t, 1, 3) == Some(Scalar::zero()));
}

proof fn lemma_translation_cofactor_20(x: Scalar, y: Scalar, z: Scalar)
    requires
        x@ != i64::MIN,
        y@ != i64::MIN,
        z@ != i64::MIN,
    ensures
        cofactor4(translation(x, y, z), 2, 0) == Some(
            translation(x.negated(), y.negated(), z.negated())[2],
        ),
{
    lemma_zero_and_one();
    let t = translation(x, y, z);
    assert(sub4(t, 2, 0) =~= seq![
        Scalar::zero(),
        Scalar::zero(),
        x,
        Scalar::one(),
        Scalar::zero(),
        y,
        Scalar::zero(),
        Scalar::zero(),
        Scalar::one(),
    ]);
    assert(cofactor4(t, 2, 0) == Some(Scalar::zero()));
}

proof fn lemma_translation_cofactor_21(x: Scalar, y: Scalar, z: Scalar)
    requires
        x@ != i64::MIN,
        y@ != i64::MIN,
        z@ != i64::MIN,
    ensures
        cofactor4(translation(x, y, z), 2, 1) == Some(
            translation(x.negated(), y.negated(), z.negated())[6],
        ),
{
    lemma_zero_and_one();
    let t = translation(x, y, z);
    assert(sub4(t, 2, 1) =~= seq![
        Scalar::one(),
        Scalar::zero(),
        x,
        Scalar::zero(),
        Scalar::zero(),
        y,
        Scalar::zero(),
        Scalar::zero(),
        Scalar::one(),
    ]);
    assert(cofactor4(t, 2, 1) == Some(Scalar::zero()));
}

proof fn lemma_translation_cofactor_22(x: Scalar, y: Scalar, z: Scalar)
    requires
        x@ != i64::MIN,
        y@ != i64::MIN,
        z@ != i64::MIN,
    ensures
        cofactor4(translation(x, y, z), 2, 2) == Some(
            translation(x.negated(), y.negated(), z.negated())[10],
        ),
{
    lemma_zero_and_one();
    let t = translation(x, y, z);
    assert(sub4(t, 2, 2) =~= seq![
        Scalar::one(),
        Scalar::zero(),
        x,
        Scalar::zero(),
        Scalar::one(),
        y,
        Scalar::zero(),
        Scalar::zero(),
        Scalar::one(),
    ]);
    assert(cofactor4(t, 2, 2) == Some(Scalar::one()));
}

proof fn lemma_translation_cofactor_23(x: Scalar, y: Scalar, z: Scalar)
    requires
        x@ != i64::MIN,
        y@ != i64::MIN,
        z@ != i64::MIN,
    ensures
        cofactor4(translation(x, y, z), 2, 3) == Some(
            translation(x.negated(), y.negated(), z.negated())[14],
        ),
{
    lemma_zero_and_one();
    let t = translation(x, y, z);
    assert(sub4(t, 2, 3) =~= seq![
        Scalar::one(),
        Scalar::zero(),
        Scalar::zero(),
        Scalar::zero(),
        Scalar::one(),
        Scalar::zero(),
        Scalar::zero(),
        Scalar::zero(),
        Scalar::zero(),
    ]);
    assert(cofactor4(t, 2, 3) == Some(Scalar::zero()));
}

proof fn lemma_translation_cofactor_30(x: Scalar, y: Scalar, z: Scalar)
    requires
        x@ != i64::MIN,
        y@ != i64::MIN,
        z@ != i64::MIN,
    ensures
        cofactor4(translation(x, y, z), 3, 0) == Some(
            translation(x.negated(), y.negated(), z.negated())[3],
        ),
{
    lemma_zero_and_one();
    let t = translation(x, y, z);
    assert(sub4(t, 3, 0) =~= seq![
        Scalar::zero(),
        Scalar::zero(),
        x,
        Scalar::one(),
        Scalar::zero(),
        y,
        Scalar::zero(),
        Scalar::one(),
        z,
    ]);
    assert(cofactor4(t, 3, 0) == Some(x.negated()));
}

proof fn lemma_translation_cofactor_31(x: Scalar, y: Scalar, z: Scalar)
    requires
        x@ != i64::MIN,
        y@ != i64::MIN,
        z@ != i64::MIN,
    ensures
        cofactor4(translation(x, y, z), 3, 1) == Some(
            translation(x.negated(), y.negated(), z.negated())[7],
        ),
{
    lemma_zero_and_one();
    let t = translation(x, y, z);
    assert(sub4(t, 3, 1) =~= seq![
        Scalar::one(),
        Scalar::zero(),
        x,
        Scalar::zero(),
        Scalar::zero(),
        y,
        Scalar::zero(),
        Scalar::one(),
        z,
    ]);
    assert(cofactor4(t, 3, 1) == Some(y.negated()));
}

proof fn lemma_translation_cofactor_32(x: Scalar, y: Scalar, z: Scalar)
    requires
        x@ != i64::MIN,
        y@ != i64::MIN,
        z@ != i64::MIN,
    ensures
        cofactor4(translation(x, y, z), 3, 2) == Some(
            translation(x.negated(), y.negated(), z.negated())[11],
        ),
{
    lemma_zero_and_one();
    let t = translation(x, y, z);
    assert(sub4(t, 3, 2) =~= seq![
        Scalar::one(),
        Scalar::zero(),
        x,
        Scalar::zero(),
        Scalar::one(),
        y,
        Scalar::zero(),
        Scalar::zero(),
        z,
    ]);
    assert(cofactor4(t, 3, 2) == Some(z.negated()));
}

proof fn lemma_translation_cofactor_33(x: Scalar, y: Scalar, z: Scalar)
    requires
        x@ != i64::MIN,
        y@ != i64::MIN,
        z@ != i64::MIN,
    ensures
        cofactor4(translation(x, y, z), 3, 3) == Some(
            translation(x.negated(), y.negated(), z.negated())[15],
        ),
{
    lemma_zero_and_one();
    let t = translation(x, y, z);
    assert(sub4(t, 3, 3) =~= seq![
        Scalar::one(),
        Scalar::zero(),
        Scalar::zero(),
        Scalar::zero(),
        Scalar::one(),
        Scalar::zero(),
        Scalar::zero(),
        Scalar::zero(),
        Scalar::one(),
    ]);
    assert(cofactor4(t, 3, 3) == Some(Scalar::one()));
}

/// The cofactors of a translation are the cells of the translation by the
/// opposite amounts, rows and columns exchanged.
proof fn lemma_translation_cofactor(x: Scalar, y: Scalar, z: Scalar, row: int, col: int)
    requires
        0 <= row < 4,
        0 <= col < 4,
        x@ != i64::MIN,
        y@ != i64::MIN,
        z@ != i64::MIN,
    ensures
        cofactor4(translation(x, y, z), row, col) == Some(
            translation(x.negated(), y.negated(), z.negated())[col * 4 + row],
        ),
{
    if row == 0 && col == 0 {
        lemma_translation_cofactor_00(x, y, z);
    } else if row == 0 && col == 1 {
        lemma_translation_cofactor_01(x, y, z);
    } else if row == 0 && col == 2 {
        lemma_translation_cofactor_02(x, y, z);
    } else if row == 0 && col == 3 {
        lemma_translation_cofactor_03(x, y, z);
    } else if row == 1 && col == 0 {
        lemma_translation_cofactor_10(x, y, z);
    } else if row == 1 && col == 1 {
        lemma_translation_cofactor_11(x, y, z);
    } else if row == 1 && col == 2 {
        lemma_translation_cofactor_12(x, y, z);
    } else if row == 1 && col == 3 {
        lemma_translation_cofactor_13(x, y, z);
    } else if row == 2 && col == 0 {
        lemma_translation_cofactor_20(x, y, z);
    } else if row == 2 && col == 1 {
        lemma_translation_cofactor_21(x, y, z);
    } else if row == 2 && col == 2 {
        lemma_translation_cofactor_22(x, y, z);
    } else if row == 2 && col == 3 {
        lemma_translation_cofactor_23(x, y, z);
    } else if row == 3 && col == 0 {
        lemma_translation_cofactor_30(x, y, z);
    } else if row == 3 && col == 1 {
        lemma_translation_cofactor_31(x, y, z);
    } else if row == 3 && col == 2 {
        lemma_translation_cofactor_32(x, y, z);
    } else {
        lemma_translation_cofactor_33(x, y, z);
    }
}

/// The determinant of a translation is one.
proof fn lemma_translation_det(x: Scalar, y: Scalar, z: Scalar)
    requires
        x@ != i64::MIN,
        y@ != i64::MIN,
        z@ != i64::MIN,
    ensures
        det4(translation(x, y, z)) == Some(Scalar::one()),
{
    reveal(det4);
    lemma_zero_and_one();
    lemma_translation_cofactor(x, y, z, 0, 0);
    lemma_translation_cofactor(x, y, z, 0, 1);
    lemma_translation_cofactor(x, y, z, 0, 2);
    lemma_translation_cofactor(x, y, z, 0, 3);
}

/// The inverse of a translation is the translation by the opposite
/// amounts, exactly, where the opposite of each amount can be represented.
pub proof fn law_translation_inverse(x: Scalar, y: Scalar, z: Scalar)
    requires
        x@ != i64::MIN,
        y@ != i64::MIN,
        z@ != i64::MIN,
    ensures
        inverse_of(translation(x, y, z)) == Ok::<Seq<Scalar>, MatrixError>(
            translation(x.negated(), y.negated(), z.negated()),
        ),
        invertible(translation(x, y, z)),
        inverse4(translation(x, y, z)) == translation(x.negated(), y.negated(), z.negated()),
{
    reveal(inverse_of);
    lemma_translation_det(x, y, z);
    let t = translation(x, y, z);
    let back = translation(x.negated(), y.negated(), z.negated());
    let one = Scalar::one();
    assert forall|i: int| 0 <= i < 16 implies #[trigger] inverse_cell(t, one, i) == Some(
        back[i],
    ) by {
        let row = i % 4;
        let col = i / 4;
        assert(i == col * 4 + row);
        lemma_translation_cofactor(x, y, z, row, col);
        lemma_checked_units(back[i]);
    }
    assert(Seq::new(16, |i: int| inverse_cell(t, one, i)->Some_0) =~= back);
}

/// Products of zero and one with each of the numbers given.
proof fn lemma_units(a: Scalar, b: Scalar, c: Scalar)
    ensures
        Scalar::zero().times(a) == Scalar::zero(),
        Scalar::zero().times(b) == Scalar::zero(),
        Scalar::zero().times(c) == Scalar::zero(),
        a.times(Scalar::zero()) == Scalar::zero(),
        b.times(Scalar::zero()) == Scalar::zero(),
        c.times(Scalar::zero()) == Scalar::zero(),
        Scalar::one().times(a) == a,
        Scalar::one().times(b) == b,
        Scalar::one().times(c) == c,
        a.times(Scalar::one()) == a,
        b.times(Scalar::one()) == b,
        c.times(Scalar::one()) == c,
        Scalar::zero().times(Scalar::zero()) == Scalar::zero(),
        Scalar::zero().times(Scalar::one()) == Scalar::zero(),
        Scalar::one().times(Scalar::zero()) == Scalar::zero(),
        Scalar::one().times(Scalar::one()) == Scalar::one(),
{
    lemma_times_zero(a);
    lemma_times_zero(b);
    lemma_times_zero(c);
    lemma_times_one(a);
    lemma_times_one(b);
    lemma_times_one(c);
    lemma_times_zero(Scalar::zero());
    lemma_times_zero(Scalar::one());
    lemma_times_one(Scalar::one());
}

/// A translation moves every point by its amounts.
pub proof fn law_translation_moves_points(x: Scalar, y: Scalar, z: Scalar, p: Point)
    ensures
        point_image(translation(x, y, z), p) == (Point {
            x: p.x.plus(x),
            y: p.y.plus(y),
            z: p.z.plus(z),
        }),
{
    lemma_units(p.x, p.y, p.z);
    lemma_units(x, y, z);
}

/// Two translations, one after the other, are the translation by the sums
/// of their amounts.
pub proof fn law_translations_compose(
    x: Scalar,
    y: Scalar,
    z: Scalar,
    u: Scalar,
    v: Scalar,
    w: Scalar,
)
    ensures
        product4(translation(x, y, z), translation(u, v, w)) == translation(
            u.plus(x),
            v.plus(y),
            w.plus(z),
        ),
{
    lemma_units(x, y, z);
    lemma_units(u, v, w);
    let a = translation(x, y, z);
    let b = translation(u, v, w);
    let c = translation(u.plus(x), v.plus(y), w.plus(z));
    let p = product4(a, b);
    assert forall|i: int| 0 <= i < 16 implies p[i] == c[i] by {
        let row = i / 4;
        let col = i % 4;
        assert(i == row * 4 + col);
        assert(p[i] == cell(a, b, row, col));
        if row == 0 {
            if col == 0 {
            } else if col == 1 {
            } else if col == 2 {
            } else {
            }
        } else if row == 1 {
            if col == 0 {
            } else if col == 1 {
            } else if col == 2 {
            } else {
            }
        } else if row == 2 {
            if col == 0 {
            } else if col == 1 {
            } else if col == 2 {
            } else {
            }
        } else {
            if col == 0 {
            } else if col == 1 {
            } else if col == 2 {
            } else {
            }
        }
    }
    assert(p =~= c);
}

/// A point that is moved and then moved back by the inverse is the point
/// it was, exactly, where the move stays within the numbers that can be
/// represented.
pub proof fn law_translate_and_back(x: Scalar, y: Scalar, z: Scalar, p: Point)
    requires
        x@ != i64::MIN,
        y@ != i64::MIN,
        z@ != i64::MIN,
        i64::MIN <= p.x@ + x@ <= i64::MAX,
        i64::MIN <= p.y@ + y@ <= i64::MAX,
        i64::MIN <= p.z@ + z@ <= i64::MAX,
    ensures
        invertible(translation(x, y, z)),
        point_image(inverse4(translation(x, y, z)), point_image(translation(x, y, z), p)) == p,
{
    law_translation_inverse(x, y, z);
    law_translation_moves_points(x, y, z, p);
    let q = Point { x: p.x.plus(x), y: p.y.plus(y), z: p.z.plus(z) };
    law_translation_moves_points(x.negated(), y.negated(), z.negated(), q);
}

/// A translation times its inverse is the identity matrix, exactly, where
/// the opposite of each amount can be represented.
pub proof fn law_translation_times_inverse(x: Scalar, y: Scalar, z: Scalar)
    requires
        x@ != i64::MIN,
        y@ != i64::MIN,
        z@ != i64::MIN,
    ensures
        invertible(translation(x, y, z)),
        product4(translation(x, y, z), inverse4(translation(x, y, z))) == identity4(),
{
    law_translation_inverse(x, y, z);
    law_translations_compose(x, y, z, x.negated(), y.negated(), z.negated());
    assert(translation(Scalar::zero(), Scalar::zero(), Scalar::zero()) =~= identity4());
}

/// The identity matrix is its own inverse, exactly.
pub proof fn law_identity_inverse()
    ensures
        invertible(identity4()),
        inverse4(identity4()) == identity4(),
{
    law_translation_inverse(Scalar::zero(), Scalar::zero(), Scalar::zero());
    assert(translation(Scalar::zero(), Scalar::zero(), Scalar::zero()) =~= identity4());
    assert(translation(
        Scalar::zero().negated(),
        Scalar::zero().negated(),
        Scalar::zero().negated(),
    ) =~= identity4());
}

/// Exchanging rows and columns twice gives the matrix again.
pub proof fn law_transpose_twice(m: Seq<Scalar>)
    requires
        m.len() == 16,
    ensures
        transposed(transposed(m)) == m,
{
    let t = transposed(m);
    assert forall|i: int| 0 <= i < 16 implies transposed(t)[i] == m[i] by {
        let j = (i % 4) * 4 + i / 4;
        assert(0 <= j < 16);
        assert((j % 4) * 4 + j / 4 == i);
    }
    assert(transposed(t) =~= m);
}

proof fn lemma_scaling_cofactor_00(x: Scalar, y: Scalar, z: Scalar)
    ensures
        cofactor4(scaling(x, y, z), 0, 0) == y.times_checked(z),
{
    lemma_zero_and_one();
    let t = scaling(x, y, z);
    assert(sub4(t, 0, 0) =~= seq![
        y,
        Scalar::zero(),
        Scalar::zero(),
        Scalar::zero(),
        z,
        Scalar::zero(),
        Scalar::zero(),
        Scalar::zero(),
        Scalar::one(),
    ]);
}

proof fn lemma_scaling_cofactor_01(x: Scalar, y: Scalar, z: Scalar)
    ensures
        cofactor4(scaling(x, y, z), 0, 1) is Some ==> cofactor4(scaling(x, y, z), 0, 1) == Some(
            Scalar::zero(),
        ),
{
    lemma_zero_and_one();
    let t = scaling(x, y, z);
    assert(sub4(t, 0, 1) =~= seq![
        Scalar::zero(),
        Scalar::zero(),
        Scalar::zero(),
        Scalar::zero(),
        z,
        Scalar::zero(),
        Scalar::zero(),
        Scalar::zero(),
        Scalar::one(),
    ]);
}

proof fn lemma_scaling_cofactor_02(x: Scalar, y: Scalar, z: Scalar)
    ensures
        cofactor4(scaling(x, y, z), 0, 2) is Some ==> cofactor4(scaling(x, y, z), 0, 2) == Some(
            Scalar::zero(),
        ),
{
    lemma_zero_and_one();
    let t = scaling(x, y, z);
    assert(sub4(t, 0, 2) =~= seq![
        Scalar::zero(),
        y,
        Scalar::zero(),
        Scalar::zero(),
        Scalar::zero(),
        Scalar::zero(),
        Scalar::zero(),
        Scalar::zero(),
        Scalar::one(),
    ]);
}

proof fn lemma_scaling_cofactor_03(x: Scalar, y: Scalar, z: Scalar)
    ensures
        cofactor4(scaling(x, y, z), 0, 3) is Some ==> cofactor4(scaling(x, y, z), 0, 3) == Some(
            Scalar::zero(),
        ),
{
    lemma_zero_and_one();
    let t = scaling(x, y, z);
    assert(sub4(t, 0, 3) =~= seq![
        Scalar::zero(),
        y,
        Scalar::zero(),
        Scalar::zero(),
        Scalar::zero(),
        z,
        Scalar::zero(),
        Scalar::zero(),
        Scalar::zero(),
    ]);
}

proof fn lemma_scaling_cofactor_10(x: Scalar, y: Scalar, z: Scalar)
    ensures
        cofactor4(scaling(x, y, z), 1, 0) is Some ==> cofactor4(scaling(x, y, z), 1, 0) == Some(
            Scalar::zero(),
        ),
{
    lemma_zero_and_one();
    let t = scaling(x, y, z);
    assert(sub4(t, 1, 0) =~= seq![
        Scalar::zero(),
        Scalar::zero(),
        Scalar::zero(),
        Scalar::zero(),
        z,
        Scalar::zero(),
        Scalar::zero(),
        Scalar::zero(),
        Scalar::one(),
    ]);
}

proof fn lemma_scaling_cofactor_11(x: Scalar, y: Scalar, z: Scalar)
    ensures
        cofactor4(scaling(x, y, z), 1, 1) == x.times_checked(z),
{
    lemma_zero_and_one();
    let t = scaling(x, y, z);
    assert(sub4(t, 1, 1) =~= seq![
        x,
        Scalar::zero(),
        Scalar::zero(),
        Scalar::zero(),
        z,
        Scalar::zero(),
        Scalar::zero(),
        Scalar::zero(),
        Scalar::one(),
    ]);
}

proof fn lemma_scaling_cofactor_12(x: Scalar, y: Scalar, z: Scalar)
    ensures
        cofactor4(scaling(x, y, z), 1, 2) is Some ==> cofactor4(scaling(x, y, z), 1, 2) == Some(
            Scalar::zero(),
        ),
{
    lemma_zero_and_one();
    let t = scaling(x, y, z);
    assert(sub4(t, 1, 2) =~= seq![
        x,
        Scalar::zero(),
        Scalar::zero(),
        Scalar::zero(),
        Scalar::zero(),
        Scalar::zero(),
        Scalar::zero(),
        Scalar::zero(),
        Scalar::one(),
    ]);
}

proof fn lemma_scaling_cofactor_13(x: Scalar, y: Scalar, z: Scalar)
    ensures
        cofactor4(scaling(x, y, z), 1, 3) is Some ==> cofactor4(scaling(x, y, z), 1, 3) == Some(
            Scalar::zero(),
        ),
{
    lemma_zero_and_one();
    let t = scaling(x, y, z);
    assert(sub4(t, 1, 3) =~= seq![
        x,
        Scalar::zero(),
        Scalar::zero(),
        Scalar::zero(),
        Scalar::zero(),
        z,
        Scalar::zero(),
        Scalar::zero(),
        Scalar::zero(),
    ]);
}

proof fn lemma_scaling_cofactor_20(x: Scalar, y: Scalar, z: Scalar)
    ensures
        cofactor4(scaling(x, y, z), 2, 0) is Some ==> cofactor4(scaling(x, y, z), 2, 0) == Some(
            Scalar::zero(),
        ),
{
    lemma_zero_and_one();
    let t = scaling(x, y, z);
    assert(sub4(t, 2, 0) =~= seq![
        Scalar::zero(),
        Scalar::zero(),
        Scalar::zero(),
        y,
        Scalar::zero(),
        Scalar::zero(),
        Scalar::zero(),
        Scalar::zero(),
        Scalar::one(),
    ]);
}

proof fn lemma_scaling_cofactor_21(x: Scalar, y: Scalar, z: Scalar)
    ensures
        cofactor4(scaling(x, y, z), 2, 1) is Some ==> cofactor4(scaling(x, y, z), 2, 1) == Some(
            Scalar::zero(),
        ),
{
    lemma_zero_and_one();
    let t = scaling(x, y, z);
    assert(sub4(t, 2, 1) =~= seq![
        x,
        Scalar::zero(),
        Scalar::zero(),
        Scalar::zero(),
        Scalar::zero(),
        Scalar::zero(),
        Scalar::zero(),
        Scalar::zero(),
        Scalar::one(),
    ]);
}

proof fn lemma_scaling_cofactor_22(x: Scalar, y: Scalar, z: Scalar)
    ensures
        cofactor4(scaling(x, y, z), 2, 2) == x.times_checked(y),
{
    lemma_zero_and_one();
    let t = scaling(x, y, z);
    assert(sub4(t, 2, 2) =~= seq![
        x,
        Scalar::zero(),
        Scalar::zero(),
        Scalar::zero(),
        y,
        Scalar::zero(),
        Scalar::zero(),
        Scalar::zero(),
        Scalar::one(),
    ]);
}

proof fn lemma_scaling_cofactor_23(x: Scalar, y: Scalar, z: Scalar)
    ensures
        cofactor4(scaling(x, y, z), 2, 3) is Some ==> cofactor4(scaling(x, y, z), 2, 3) == Some(
            Scalar::zero(),
        ),
{
    lemma_zero_and_one();
    let t = scaling(x, y, z);
    assert(sub4(t, 2, 3) =~= seq![
        x,
        Scalar::zero(),
        Scalar::zero(),
        Scalar::zero(),
        y,
        Scalar::zero(),
        Scalar::zero(),
        Scalar::zero(),
        Scalar::zero(),
    ]);
}

proof fn lemma_scaling_cofactor_30(x: Scalar, y: Scalar, z: Scalar)
    ensures
        cofactor4(scaling(x, y, z), 3, 0) is Some ==> cofactor4(scaling(x, y, z), 3, 0) == Some(
            Scalar::zero(),
        ),
{
    lemma_zero_and_one();
    let t = scaling(x, y, z);
    assert(sub4(t, 3, 0) =~= seq![
        Scalar::zero(),
        Scalar::zero(),
        Scalar::zero(),
        y,
        Scalar::zero(),
        Scalar::zero(),
        Scalar::zero(),
        z,
        Scalar::zero(),
    ]);
}

proof fn lemma_scaling_cofactor_31(x: Scalar, y: Scalar, z: Scalar)
    ensures
        cofactor4(scaling(x, y, z), 3, 1) is Some ==> cofactor4(scaling(x, y, z), 3, 1) == Some(
            Scalar::zero(),
        ),
{
    lemma_zero_and_one();
    let t = scaling(x, y, z);
    assert(sub4(t, 3, 1) =~= seq![
        x,
        Scalar::zero(),
        Scalar::zero(),
        Scalar::zero(),
        Scalar::zero(),
        Scalar::zero(),
        Scalar::zero(),
        z,
        Scalar::zero(),
    ]);
}

proof fn lemma_scaling_cofactor_32(x: Scalar, y: Scalar, z: Scalar)
    ensures
        cofactor4(scaling(x, y, z), 3, 2) is Some ==> cofactor4(scaling(x, y, z), 3, 2) == Some(
            Scalar::zero(),
        ),
{
    lemma_zero_and_one();
    let t = scaling(x, y, z);
    assert(sub4(t, 3, 2) =~= seq![
        x,
        Scalar::zero(),
        Scalar::zero(),
        Scalar::zero(),
        y,
        Scalar::zero(),
        Scalar::zero(),
        Scalar::zero(),
        Scalar::zero(),
    ]);
}

proof fn lemma_scaling_cofactor_33(x: Scalar, y: Scalar, z: Scalar)
    ensures
        cofactor4(scaling(x, y, z), 3, 3) == term(x, y.times_checked(z)),
{
    lemma_zero_and_one();
    let t = scaling(x, y, z);
    assert(sub4(t, 3, 3) =~= seq![
        x,
        Scalar::zero(),
        Scalar::zero(),
        Scalar::zero(),
        y,
        Scalar::zero(),
        Scalar::zero(),
        Scalar::zero(),
        z,
    ]);
}

/// The cofactors of a scaling away from the diagonal are zero.
proof fn lemma_scaling_cofactor(x: Scalar, y: Scalar, z: Scalar, row: int, col: int)
    requires
        0 <= row < 4,
        0 <= col < 4,
        row != col,
        cofactor4(scaling(x, y, z), row, col) is Some,
    ensures
        cofactor4(scaling(x, y, z), row, col) == Some(Scalar::zero()),
{
    if row == 0 && col == 1 {
        lemma_scaling_cofactor_01(x, y, z);
    } else if row == 0 && col == 2 {
        lemma_scaling_cofactor_02(x, y, z);
    } else if row == 0 && col == 3 {
        lemma_scaling_cofactor_03(x, y, z);
    } else if row == 1 && col == 0 {
        lemma_scaling_cofactor_10(x, y, z);
    } else if row == 1 && col == 2 {
        lemma_scaling_cofactor_12(x, y, z);
    } else if row == 1 && col == 3 {
        lemma_scaling_cofactor_13(x, y, z);
    } else if row == 2 && col == 0 {
        lemma_scaling_cofactor_20(x, y, z);
    } else if row == 2 && col == 1 {
        lemma_scaling_cofactor_21(x, y, z);
    } else if row == 2 && col == 3 {
        lemma_scaling_cofactor_23(x, y, z);
    } else if row == 3 && col == 0 {
        lemma_scaling_cofactor_30(x, y, z);
    } else if row == 3 && col == 1 {
        lemma_scaling_cofactor_31(x, y, z);
    } else {
        lemma_scaling_cofactor_32(x, y, z);
    }
}

/// A scaling multiplies each coordinate of a point by its factor.
pub proof fn law_scaling_stretches_points(x: Scalar, y: Scalar, z: Scalar, p: Point)
    ensures
        point_image(scaling(x, y, z), p) == (Point {
            x: x.times(p.x),
            y: y.times(p.y),
            z: z.times(p.z),
        }),
{
    lemma_units(p.x, p.y, p.z);
    lemma_units(x, y, z);
}

/// A rotation about the x axis keeps the x of every point, whatever sine
/// and cosine it is built from.
pub proof fn law_rotation_x_keeps_x(sin: Scalar, cos: Scalar, p: Point)
    ensures
        point_image(rotation_x(sin, cos), p).x == p.x,
{
    lemma_units(p.x, p.y, p.z);
}

/// A rotation about the y axis keeps the y of every point, whatever sine
/// and cosine it is built from.
pub proof fn law_rotation_y_keeps_y(sin: Scalar, cos: Scalar, p: Point)
    ensures
        point_image(rotation_y(sin, cos), p).y == p.y,
{
    lemma_units(p.x, p.y, p.z);
}

/// A rotation about the z axis keeps the z of every point, whatever sine
/// and cosine it is built from.
pub proof fn law_rotation_z_keeps_z(sin: Scalar, cos: Scalar, p: Point)
    ensures
        point_image(rotation_z(sin, cos), p).z == p.z,
{
    lemma_units(p.x, p.y, p.z);
}

/// The inverse of a scaling, where it has one, is the scaling by the
/// cofactors of its factors, each divided by the determinant: with `d` the
/// determinant `x (y z)`, the factors of the inverse are `(y z) / d`,
/// `(x z) / d` and `(x y) / d`, every product and quotient rounded.
pub proof fn law_scaling_inverse(x: Scalar, y: Scalar, z: Scalar)
    requires
        inverse_of(scaling(x, y, z)) is Ok,
    ensures
        y.times_checked(z) is Some,
        x.times_checked(z) is Some,
        x.times_checked(y) is Some,
        x.times_checked(y.times(z)) is Some,
        x.times(y.times(z))@ != 0,
        y.times(z).over_checked(x.times(y.times(z))) is Some,
        x.times(z).over_checked(x.times(y.times(z))) is Some,
        x.times(y).over_checked(x.times(y.times(z))) is Some,
        inverse4(scaling(x, y, z)) == scaling(
            y.times(z).over(x.times(y.times(z))),
            x.times(z).over(x.times(y.times(z))),
            x.times(y).over(x.times(y.times(z))),
        ),
{
    let t = scaling(x, y, z);
    lemma_scaling_det(x, y, z);
    let d = x.times(y.times(z));
    let back = scaling(y.times(z).over(d), x.times(z).over(d), x.times(y).over(d));
    assert forall|i: int| 0 <= i < 16 implies #[trigger] inverse_cell(t, d, i) == Some(
        back[i],
    ) by {
        lemma_scaling_cell(x, y, z, i);
    }
    lemma_scaling_entries(y.times(z).over(d), x.times(z).over(d), x.times(y).over(d));
    lemma_inverse_from_cells(t, d, back);
    lemma_scaling_facts(x, y, z);
}

/// What is there of a scaling that has an inverse: the products of its
/// factors and their quotients by the determinant.
proof fn lemma_scaling_facts(x: Scalar, y: Scalar, z: Scalar)
    requires
        inverse_of(scaling(x, y, z)) is Ok,
    ensures
        y.times_checked(z) is Some,
        x.times_checked(z) is Some,
        x.times_checked(y) is Some,
        y.times(z).over_checked(x.times(y.times(z))) is Some,
        x.times(z).over_checked(x.times(y.times(z))) is Some,
        x.times(y).over_checked(x.times(y.times(z))) is Some,
{
    let t = scaling(x, y, z);
    let d = x.times(y.times(z));
    lemma_scaling_det(x, y, z);
    lemma_inverse_cells(t);
    assert(inverse_cell(t, d, 0) is Some);
    assert(inverse_cell(t, d, 5) is Some);
    assert(inverse_cell(t, d, 10) is Some);
    lemma_scaling_cofactor_00(x, y, z);
    lemma_scaling_cofactor_11(x, y, z);
    lemma_scaling_cofactor_22(x, y, z);
}

/// The determinant of a scaling that has an inverse is the product of its
/// factors, `x (y z)`.
proof fn lemma_scaling_det(x: Scalar, y: Scalar, z: Scalar)
    requires
        inverse_of(scaling(x, y, z)) is Ok,
    ensures
        y.times_checked(z) is Some,
        det4(scaling(x, y, z)) == Some(x.times(y.times(z))),
        x.times_checked(y.times(z)) is Some,
        !is_equal(x.times(y.times(z)), Scalar::zero()),
{
    let t = scaling(x, y, z);
    lemma_inverse_cells(t);
    let d = det4(t)->Some_0;
    assert(inverse_cell(t, d, 0) is Some);
    assert(inverse_cell(t, d, 4) is Some);
    assert(inverse_cell(t, d, 8) is Some);
    assert(inverse_cell(t, d, 12) is Some);
    assert(cofactor4(t, 0, 0) is Some);
    assert(cofactor4(t, 0, 1) is Some);
    assert(cofactor4(t, 0, 2) is Some);
    assert(cofactor4(t, 0, 3) is Some);
    lemma_scaling_cofactor_00(x, y, z);
    lemma_scaling_cofactor_01(x, y, z);
    lemma_scaling_cofactor_02(x, y, z);
    lemma_scaling_cofactor_03(x, y, z);
    lemma_checked_units(Scalar::zero());
    lemma_checked_units(y.times(z));
    assert(t[0] == x && t[1] == Scalar::zero() && t[2] == Scalar::zero() && t[3]
        == Scalar::zero());
    lemma_det_of_row(t, x, y.times(z));
}

/// The determinant of a matrix whose first row holds `a` and three zeros,
/// and whose first cofactor is `c`, is `a` times `c`.
proof fn lemma_det_of_row(m: Seq<Scalar>, a: Scalar, c: Scalar)
    requires
        m[0] == a,
        m[1] == Scalar::zero(),
        m[2] == Scalar::zero(),
        m[3] == Scalar::zero(),
        cofactor4(m, 0, 0) == Some(c),
        cofactor4(m, 0, 1) == Some(Scalar::zero()),
        cofactor4(m, 0, 2) == Some(Scalar::zero()),
        cofactor4(m, 0, 3) == Some(Scalar::zero()),
    ensures
        det4(m) == a.times_checked(c),
{
    reveal(det4);
    lemma_checked_units(Scalar::zero());
}

proof fn lemma_scaling_cell_00(x: Scalar, y: Scalar, z: Scalar)
    requires
        inverse_of(scaling(x, y, z)) is Ok,
    ensures
        inverse_cell(scaling(x, y, z), x.times(y.times(z)), 0) == Some(y.times(z).over(x.times(y.times(z)))),
{
    let t = scaling(x, y, z);
    let d = x.times(y.times(z));
    lemma_scaling_det(x, y, z);
    lemma_inverse_cells(t);
    lemma_over_self(d);
    assert(inverse_cell(t, d, 0) is Some);
    lemma_scaling_cofactor_00(x, y, z);
}

proof fn lemma_scaling_cell_11(x: Scalar, y: Scalar, z: Scalar)
    requires
        inverse_of(scaling(x, y, z)) is Ok,
    ensures
        inverse_cell(scaling(x, y, z), x.times(y.times(z)), 5) == Some(x.times(z).over(x.times(y.times(z)))),
{
    let t = scaling(x, y, z);
    let d = x.times(y.times(z));
    lemma_scaling_det(x, y, z);
    lemma_inverse_cells(t);
    lemma_over_self(d);
    assert(inverse_cell(t, d, 5) is Some);
    lemma_scaling_cofactor_11(x, y, z);
}

proof fn lemma_scaling_cell_22(x: Scalar, y: Scalar, z: Scalar)
    requires
        inverse_of(scaling(x, y, z)) is Ok,
    ensures
        inverse_cell(scaling(x, y, z), x.times(y.times(z)), 10) == Some(x.times(y).over(x.times(y.times(z)))),
{
    let t = scaling(x, y, z);
    let d = x.times(y.times(z));
    lemma_scaling_det(x, y, z);
    lemma_inverse_cells(t);
    lemma_over_self(d);
    assert(inverse_cell(t, d, 10) is Some);
    lemma_scaling_cofactor_22(x, y, z);
}

proof fn lemma_scaling_cell_33(x: Scalar, y: Scalar, z: Scalar)
    requires
        inverse_of(scaling(x, y, z)) is Ok,
    ensures
        inverse_cell(scaling(x, y, z), x.times(y.times(z)), 15) == Some(Scalar::one()),
{
    let t = scaling(x, y, z);
    let d = x.times(y.times(z));
    lemma_scaling_det(x, y, z);
    lemma_inverse_cells(t);
    lemma_over_self(d);
    assert(inverse_cell(t, d, 15) is Some);
    lemma_scaling_cofactor_33(x, y, z);
}

proof fn lemma_scaling_cell_off(x: Scalar, y: Scalar, z: Scalar, row: int, col: int)
    requires
        inverse_of(scaling(x, y, z)) is Ok,
        0 <= row < 4,
        0 <= col < 4,
        row != col,
    ensures
        inverse_cell(scaling(x, y, z), x.times(y.times(z)), col * 4 + row) == Some(
            Scalar::zero(),
        ),
{
    let t = scaling(x, y, z);
    let d = x.times(y.times(z));
    lemma_scaling_det(x, y, z);
    lemma_inverse_cells(t);
    lemma_over_self(d);
    let i = col * 4 + row;
    assert(i % 4 == row && i / 4 == col);
    assert(inverse_cell(t, d, i) is Some);
    assert(cofactor4(t, row, col) is Some);
    lemma_scaling_cofactor(x, y, z, row, col);
}

/// The cells of a scaling, one by one.
proof fn lemma_scaling_entries(a: Scalar, b: Scalar, c: Scalar)
    ensures
        scaling(a, b, c).len() == 16,
        scaling(a, b, c)[0] == a,
        scaling(a, b, c)[5] == b,
        scaling(a, b, c)[10] == c,
        scaling(a, b, c)[15] == Scalar::one(),
        forall|i: int|
            0 <= i < 16 && i != 0 && i != 5 && i != 10 && i != 15 ==> #[trigger] scaling(
                a,
                b,
                c,
            )[i] == Scalar::zero(),
{
}

/// Cell `i` of the inverse of a scaling.
proof fn lemma_scaling_cell(x: Scalar, y: Scalar, z: Scalar, i: int)
    requires
        inverse_of(scaling(x, y, z)) is Ok,
        0 <= i < 16,
    ensures
        inverse_cell(scaling(x, y, z), x.times(y.times(z)), i) == Some(
            scaling(
                y.times(z).over(x.times(y.times(z))),
                x.times(z).over(x.times(y.times(z))),
                x.times(y).over(x.times(y.times(z))),
            )[i],
        ),
{
    let d = x.times(y.times(z));
    lemma_scaling_entries(y.times(z).over(d), x.times(z).over(d), x.times(y).over(d));
    if i == 0 {
        lemma_scaling_cell_00(x, y, z);
    } else if i == 5 {
        lemma_scaling_cell_11(x, y, z);
    } else if i == 10 {
        lemma_scaling_cell_22(x, y, z);
    } else if i == 15 {
        lemma_scaling_cell_33(x, y, z);
    } else {
        let row = i % 4;
        let col = i / 4;
        assert(i == col * 4 + row);
        lemma_scaling_cell_off(x, y, z, row, col);
    }
}

/// Whether a coordinate `p` comes back from a stretch by `f` whose inverse
/// has the factor `w / d`: the stretched coordinate can be represented and
/// is at most nine thousand, and the determinant `d` is not too small
/// against `p` and the cofactor `w`. `slack` is twice the error, in raw
/// units, by which `d` may differ from `f` times `w`.
pub open spec fn comes_back(f: Scalar, w: Scalar, d: Scalar, p: Scalar, slack: int) -> bool {
    &&& f.times_checked(p) is Some
    &&& magnitude(f.times(p)@) <= 9000 * SCALE
    &&& magnitude(p@) * slack + magnitude(w@) * SCALE <= 9000 * (magnitude(d@) * SCALE)
}

/// One coordinate of a point that is stretched and then taken back by the
/// inverse of the stretch is within the tolerance of what it was.
proof fn lemma_coordinate_comes_back(f: Scalar, w: Scalar, d: Scalar, p: Scalar, slack: int)
    requires
        d@ != 0,
        -slack <= 2 * (f@ * w@ - d@ * SCALE) <= slack,
        w.over_checked(d) is Some,
        comes_back(f, w, d, p, slack),
    ensures
        is_equal(w.over(d).times(f.times(p)), p),
{
    reveal(Scalar::times);
    reveal(Scalar::over);
    let i = w.over(d);
    let q = f.times(p);
    let wide = nearest(i@ * q@, SCALE as int);
    lemma_there_and_back(f@, w@, d@, i@, q@, wide, p@, slack);
}

/// A point that is stretched and then taken back by the inverse of the
/// stretch is within the tolerance of the point it was, where each
/// stretched coordinate can be represented and is at most nine thousand,
/// and the determinant is not too small against the point and the
/// cofactors.
pub proof fn law_scale_and_back(x: Scalar, y: Scalar, z: Scalar, p: Point)
    requires
        inverse_of(scaling(x, y, z)) is Ok,
        comes_back(x, y.times(z), x.times(y.times(z)), p.x, SCALE as int),
        comes_back(
            y,
            x.times(z),
            x.times(y.times(z)),
            p.y,
            SCALE + magnitude(x@) + magnitude(y@),
        ),
        comes_back(
            z,
            x.times(y),
            x.times(y.times(z)),
            p.z,
            SCALE + magnitude(x@) + magnitude(z@),
        ),
    ensures
        point_image(inverse4(scaling(x, y, z)), point_image(scaling(x, y, z), p)).approx(p),
{
    law_scaling_inverse(x, y, z);
    let yz = y.times(z);
    let xz = x.times(z);
    let xy = x.times(y);
    let d = x.times(yz);
    law_scaling_stretches_points(x, y, z, p);
    let q = Point { x: x.times(p.x), y: y.times(p.y), z: z.times(p.z) };
    law_scaling_stretches_points(yz.over(d), xz.over(d), xy.over(d), q);
    assert(-SCALE <= 2 * (x@ * yz@ - d@ * SCALE) <= SCALE) by {
        reveal(Scalar::times);
        lemma_nearest_error(x@ * yz@, SCALE as int);
    }
    lemma_coordinate_comes_back(x, yz, d, p.x, SCALE as int);
    assert(-(SCALE + magnitude(x@) + magnitude(y@)) <= 2 * (y@ * xz@ - d@ * SCALE) <= SCALE
        + magnitude(x@) + magnitude(y@)) by {
        reveal(Scalar::times);
        lemma_regrouped(x@, y@, z@, yz@, d@, xz@);
    }
    lemma_coordinate_comes_back(y, xz, d, p.y, SCALE + magnitude(x@) + magnitude(y@));
    assert(-(SCALE + magnitude(x@) + magnitude(z@)) <= 2 * (z@ * xy@ - d@ * SCALE) <= SCALE
        + magnitude(x@) + magnitude(z@)) by {
        reveal(Scalar::times);
        assert(z@ * y@ == y@ * z@) by (nonlinear_arith);
        lemma_regrouped(x@, z@, y@, yz@, d@, xy@);
    }
    lemma_coordinate_comes_back(z, xy, d, p.z, SCALE + magnitude(x@) + magnitude(z@));
}

/// Two scalings, one after the other, are the scaling by the products of
/// their factors.
pub proof fn law_scalings_compose(
    x: Scalar,
    y: Scalar,
    z: Scalar,
    u: Scalar,
    v: Scalar,
    w: Scalar,
)
    ensures
        product4(scaling(x, y, z), scaling(u, v, w)) == scaling(
            x.times(u),
            y.times(v),
            z.times(w),
        ),
{
    lemma_units(x, y, z);
    lemma_units(u, v, w);
    lemma_scaling_entries(x, y, z);
    lemma_scaling_entries(u, v, w);
    lemma_scaling_entries(x.times(u), y.times(v), z.times(w));
    let a = scaling(x, y, z);
    let b = scaling(u, v, w);
    let c = scaling(x.times(u), y.times(v), z.times(w));
    let p = product4(a, b);
    assert forall|i: int| 0 <= i < 16 implies p[i] == c[i] by {
        let row = i / 4;
        let col = i % 4;
        assert(i == row * 4 + col);
        assert(p[i] == cell(a, b, row, col));
        if row == 0 {
            if col == 0 {
            } else if col == 1 {
            } else if col == 2 {
            } else {
            }
        } else if row == 1 {
            if col == 0 {
            } else if col == 1 {
            } else if col == 2 {
            } else {
            }
        } else if row == 2 {
            if col == 0 {
            } else if col == 1 {
            } else if col == 2 {
            } else {
            }
        } else {
            if col == 0 {
            } else if col == 1 {
            } else if col == 2 {
            } else {
            }
        }
    }
    assert(p =~= c);
}

/// A scaling times its inverse is the identity matrix within the
/// tolerance, where the factors can be taken back: each factor at most
/// nine thousand, and the determinant not too small against one and the
/// cofactors.
pub proof fn law_scaling_times_inverse(x: Scalar, y: Scalar, z: Scalar)
    requires
        inverse_of(scaling(x, y, z)) is Ok,
        comes_back(x, y.times(z), x.times(y.times(z)), Scalar::one(), SCALE as int),
        comes_back(
            y,
            x.times(z),
            x.times(y.times(z)),
            Scalar::one(),
            SCALE + magnitude(x@) + magnitude(y@),
        ),
        comes_back(
            z,
            x.times(y),
            x.times(y.times(z)),
            Scalar::one(),
            SCALE + magnitude(x@) + magnitude(z@),
        ),
    ensures
        approx_cells(
            product4(scaling(x, y, z), inverse4(scaling(x, y, z))),
            identity4(),
        ),
{
    law_scaling_inverse(x, y, z);
    let yz = y.times(z);
    let xz = x.times(z);
    let xy = x.times(y);
    let d = x.times(yz);
    let i0 = yz.over(d);
    let i1 = xz.over(d);
    let i2 = xy.over(d);
    law_scalings_compose(x, y, z, i0, i1, i2);
    let one = Scalar::one();
    lemma_units(x, y, z);
    assert(-SCALE <= 2 * (x@ * yz@ - d@ * SCALE) <= SCALE) by {
        reveal(Scalar::times);
        lemma_nearest_error(x@ * yz@, SCALE as int);
    }
    lemma_coordinate_comes_back(x, yz, d, one, SCALE as int);
    lemma_times_commutes(i0, x);
    assert(-(SCALE + magnitude(x@) + magnitude(y@)) <= 2 * (y@ * xz@ - d@ * SCALE) <= SCALE
        + magnitude(x@) + magnitude(y@)) by {
        reveal(Scalar::times);
        lemma_regrouped(x@, y@, z@, yz@, d@, xz@);
    }
    lemma_coordinate_comes_back(y, xz, d, one, SCALE + magnitude(x@) + magnitude(y@));
    lemma_times_commutes(i1, y);
    assert(-(SCALE + magnitude(x@) + magnitude(z@)) <= 2 * (z@ * xy@ - d@ * SCALE) <= SCALE
        + magnitude(x@) + magnitude(z@)) by {
        reveal(Scalar::times);
        assert(z@ * y@ == y@ * z@) by (nonlinear_arith);
        lemma_regrouped(x@, z@, y@, yz@, d@, xy@);
    }
    lemma_coordinate_comes_back(z, xy, d, one, SCALE + magnitude(x@) + magnitude(z@));
    lemma_times_commutes(i2, z);
    let product = scaling(x.times(i0), y.times(i1), z.times(i2));
    lemma_scaling_entries(x.times(i0), y.times(i1), z.times(i2));
    assert forall|i: int| 0 <= i < product.len() implies is_equal(
        #[trigger] product[i],
        identity4()[i],
    ) by {
        if i == 0 || i == 5 || i == 10 || i == 15 {
        }
    }
}

} // verus!
