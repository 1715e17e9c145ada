use rust_multiplayer::math::{Rect2X, Vector2X};

#[test]
fn test_vector_creation() {
    let v1 = Vector2X::<f32>::new(1.0, 2.0);
    assert_eq!(v1.x, 1.0);
    assert_eq!(v1.y, 2.0);
}

#[test]
fn test_vector_add() {
    let v1 = Vector2X::<i64>::new(1, 2);
    let v2 = Vector2X::<i64>::new(10, 20);
    let v3 = v1.plus(v2);
    assert_eq!(v3.x, v1.x + v2.x);
    assert_eq!(v3.y, v1.y + v2.y);
}

#[test]
fn test_vector_add_assign() {
    let v1 = Vector2X::<i64>::new(1, 2);
    let mut v2 = Vector2X::<i64>::new(10, 20);
    v2.plus_assign(v1);
    assert_eq!(v2.x, 11);
    assert_eq!(v2.y, 22);
}

#[test]
fn test_vector_negation() {
    let v1 = Vector2X::<i64>::new(1, 2);
    let v1_neg = v1.negated();
    assert_eq!(v1_neg.x, -v1.x);
    assert_eq!(v1_neg.y, -v1.y);
}

#[test]
fn test_vector_mul_scalar() {
    let v1 = Vector2X::<i64>::new(1, 2);
    let scalar = 5;
    let v1_multiplied = v1.scaled(scalar);
    assert_eq!(v1_multiplied.x, v1.x * scalar);
    assert_eq!(v1_multiplied.y, v1.y * scalar);
}

#[test]
fn test_vector_dot() {
    let v1 = Vector2X::<i64>::new(1, 0);
    let v2 = Vector2X::<i64>::new(-1, 0);
    let v1_dot_v2 = v1.dot(v2);
    assert_eq!(v1_dot_v2, -1);
}

#[test]
fn test_vector_length_squared() {
    let v = Vector2X::<i64>::new(3, 4);
    assert_eq!(v.length_squared(), 25);
}

#[test]
fn test_rect_creation() {
    let position = Vector2X::<f32>::new(1.0, 0.0);
    let size = Vector2X::<f32>::new(3.0, 5.0);
    let rect = Rect2X::new(position.x, position.y, size.x, size.y);
    assert_eq!(rect.pos, position);
    assert_eq!(rect.size, size);
}

#[test]
fn test_rect_containing() {
    let position = Vector2X::<i64>::new(1, 0);
    let size = Vector2X::<i64>::new(3, 5);
    let rect = Rect2X::new(position.x, position.y, size.x, size.y);

    let p1_inside = position;
    let p2_not_inside = position.plus(Vector2X::new(size.x, 0));
    let p3_not_inside = position.plus(Vector2X::new(0, size.y));
    let p4_not_inside = position.plus(size);
    let p5_inside = position.plus(Vector2X::new(size.x / 2, size.y / 2));

    assert!(rect.contains(&p1_inside));
    assert!(!rect.contains(&p2_not_inside));
    assert!(!rect.contains(&p3_not_inside));
    assert!(!rect.contains(&p4_not_inside));
    assert!(rect.contains(&p5_inside));
}
