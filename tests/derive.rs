use num_traits::real::Real;
use topology_traits::generate::{expand, TypeDecl};
use topology_traits::{Connected, Geodesic};

#[derive(Clone, Copy, Debug, PartialEq)]
struct Point<R> {
    x: R,
}

impl<R> Point<R>
where
    R: Real,
{
    pub fn mix(self, rhs: Self, fac: R) -> Point<R> {
        Point {
            x: self.x * fac + rhs.x * (R::one() - fac),
        }
    }
}

// What `linear_map("mix" : R)` generates for `Point<R>`: contraction calls
// `mix`. The generated text states no bounds; these impls add the `R: Real`
// that `mix` itself needs.
impl<R: Real> Geodesic<R> for Point<R> {
    type Path = [Self; 2];
    fn path_between(self, to: Self) -> Self::Path {
        [self, to]
    }
    fn shortest_path(self, to: Self) -> Self::Path {
        [self, to]
    }
}

impl<R: Real> Connected<Point<R>, R> for [Point<R>; 2] {
    fn point_at(&self, factor: R) -> Point<R> {
        self[0].mix(self[1], factor)
    }
    fn contract(&self, factor: R) -> Point<R> {
        self[0].mix(self[1], factor)
    }
}

#[derive(Clone, Copy, Debug, PartialEq)]
struct Plain {
    x: f64,
}

impl std::ops::Add for Plain {
    type Output = Plain;
    fn add(self, o: Plain) -> Plain {
        Plain { x: self.x + o.x }
    }
}

impl std::ops::Mul<f64> for Plain {
    type Output = Plain;
    fn mul(self, f: f64) -> Plain {
        Plain { x: self.x * f }
    }
}

// The arithmetic expansion for `Plain`, written for the one scalar `f64`
// instead of every `R: Real`.
impl Geodesic<f64> for Plain {
    type Path = [Self; 2];
    fn path_between(self, to: Self) -> Self::Path {
        [self, to]
    }
    fn shortest_path(self, to: Self) -> Self::Path {
        [self, to]
    }
}

impl Connected<Plain, f64> for [Plain; 2] {
    fn point_at(&self, factor: f64) -> Plain {
        self[0] * (1.0 - factor) + self[1] * factor
    }
    fn contract(&self, factor: f64) -> Plain {
        self[0] * (1.0 - factor) + self[1] * factor
    }
}

fn decl(name: &str, args: &str, preds: &str) -> TypeDecl {
    TypeDecl {
        name: name.to_string(),
        type_args: args.to_string(),
        where_predicates: preds.to_string(),
    }
}

#[test]
fn test_map_generic_scalar_derive() {
    let text = expand(&decl("Point", "<R>", ""), &vec!["linear_map(\"mix\" : R)".to_string()]);
    let text = match text {
        Ok(t) => t,
        Err(_) => panic!("the attribute was refused"),
    };
    assert!(text.contains("self[0].mix(self[1], factor)"));
    assert!(text.contains("::topology_traits::Geodesic<R> for Point<R>"));

    let x = Point { x: 0.0 };
    let y = Point { x: 1.0 };
    assert_eq!(x.lerp(y, 0.5).x, 0.5)
}

#[test]
fn test_derive_real_vector_space() {
    let text = match expand(&decl("Point", "", ""), &vec![]) {
        Ok(t) => t,
        Err(_) => panic!("no attribute cannot be refused"),
    };
    assert!(text.contains("self[0] * (R::one() - factor) + self[1] * factor"));
    assert!(text.contains("R: ::num_traits::real::Real,"));

    let x = Plain { x: 0.0 };
    let y = Plain { x: 1.0 };
    assert_eq!(x.lerp(y, 0.5).x, 0.5);
}

#[test]
fn arithmetic_expansion_exact_text() {
    let text = match expand(&decl("P", "", ""), &vec![]) {
        Ok(t) => t,
        Err(_) => panic!("refused"),
    };
    let bounds = "where P: ::core::ops::Mul<R, Output = P>, P: ::core::ops::Add<Output = P>, R: ::num_traits::real::Real,";
    let expected = format!(
        "impl<R> ::topology_traits::Geodesic<R> for P {b} {{ type Path = [Self; 2]; fn path_between(self, to: Self) -> Self::Path {{ [self, to] }} fn shortest_path(self, to: Self) -> Self::Path {{ [self, to] }} }} impl<R> ::topology_traits::Connected<P, R> for [P; 2] {b} {{ fn point_at(&self, factor: R) -> P {{ {f} }} fn contract(&self, factor: R) -> P {{ {f} }} }}",
        b = bounds,
        f = "self[0] * (R::one() - factor) + self[1] * factor"
    );
    assert_eq!(text, expected);
}

#[test]
fn arithmetic_expansion_keeps_where_predicates() {
    let with_comma = expand(&decl("V", "<T>", "T: Copy,"), &vec![]).ok().unwrap();
    assert!(with_comma.contains("where T: Copy, V<T>: ::core::ops::Mul<R, Output = V<T>>,"));
    let without = expand(&decl("V", "<T>", "T: Copy"), &vec![]).ok().unwrap();
    assert!(without.contains("where T: Copy, V<T>: ::core::ops::Mul<R, Output = V<T>>,"));
}

#[test]
fn mapping_expansion_exact_text() {
    let text = expand(&decl("Q", "", ""), &vec!["linear_map = \"blend\"".to_string()])
        .ok()
        .unwrap();
    let expected = "impl<R> ::topology_traits::Geodesic<R> for Q  { type Path = [Self; 2]; fn path_between(self, to: Self) -> Self::Path { [self, to] } fn shortest_path(self, to: Self) -> Self::Path { [self, to] } } impl<R> ::topology_traits::Connected<Q, R> for [Q; 2]  { fn point_at(&self, factor: R) -> Q { self[0].blend(self[1], factor) } fn contract(&self, factor: R) -> Q { self[0].blend(self[1], factor) } }";
    assert_eq!(text, expected);
}

#[test]
fn boundary_factors_on_generated_shapes() {
    let a = Plain { x: 2.0 };
    let b = Plain { x: 5.0 };
    let path = a.shortest_path(b);
    let at_start: Plain = path.contract(0.0);
    let at_end: Plain = path.contract(1.0);
    assert_eq!(at_start, a);
    assert_eq!(at_end, b);
    let p = Point { x: 2.0 };
    let q = Point { x: 5.0 };
    let path: [Point<f64>; 2] = p.shortest_path(q);
    // This `mix` weighs its arguments the other way round, so the end
    // points come out swapped: the rule rests on the named method.
    let at_zero: Point<f64> = path.contract(0.0);
    let at_one: Point<f64> = path.contract(1.0);
    assert_eq!(at_zero, q);
    assert_eq!(at_one, p);
}
