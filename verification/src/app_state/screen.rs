//! The screens of the application, how menus lead to them and back,
//! and what each tool screen asks for.

use vstd::prelude::*;

verus! {

/// Every screen the application can show.
#[derive(Clone, Copy, PartialEq, Eq, Structural, Debug)]
pub enum Screen {
    MainMenu,
    LinearMenu,
    QuadMenu,
    SystemsMenu,
    ComplexMenu,
    RefMenu,
    TwoPtsLine,
    FormConvert,
    SlopeCalc,
    InterceptFinder,
    ParPerpSlope,
    VertexConvert,
    QuadAnalyzer,
    VertexToStd,
    SystemSolver,
    AbsValueSolver,
    InequalSolver,
    ComplexArith,
    PowersOfI,
    ConjModulus,
    RefFieldAxioms,
    RefFormulas,
    RefProperties,
    RefQuadRef,
    SimplifierMenu,
    ExprSimplify,
    SimpMulMono,
    SimpDivMono,
    SimpPowPow,
    SimpPowProd,
    SimpNegExp,
    SimpCombine,
    SimpDistrib,
    SimpBinPow,
    SimpIdentity,
    PolyMenu,
    FoilExpand,
    FactorTri,
    DiffSquares,
    PerfectSq,
    GcfFactor,
    PolyEval,
    SynthDiv,
    SumDiffCubes,
}

/// The menu screens.
pub open spec fn spec_is_menu(s: Screen) -> bool {
    matches!(s, Screen::MainMenu | Screen::LinearMenu | Screen::QuadMenu | Screen::SystemsMenu
        | Screen::ComplexMenu | Screen::RefMenu | Screen::PolyMenu | Screen::SimplifierMenu)
}

/// The reference-card screens.
pub open spec fn spec_is_ref(s: Screen) -> bool {
    matches!(s, Screen::RefFieldAxioms | Screen::RefFormulas | Screen::RefProperties | Screen::RefQuadRef)
}

/// The screen that `Back` leads to.
pub open spec fn spec_parent(s: Screen) -> Screen {
    match s {
        Screen::TwoPtsLine | Screen::FormConvert | Screen::SlopeCalc | Screen::InterceptFinder
        | Screen::ParPerpSlope => Screen::LinearMenu,
        Screen::VertexConvert | Screen::QuadAnalyzer | Screen::VertexToStd => Screen::QuadMenu,
        Screen::SystemSolver | Screen::AbsValueSolver | Screen::InequalSolver => Screen::SystemsMenu,
        Screen::ComplexArith | Screen::PowersOfI | Screen::ConjModulus => Screen::ComplexMenu,
        Screen::RefFieldAxioms | Screen::RefFormulas | Screen::RefProperties | Screen::RefQuadRef => Screen::RefMenu,
        Screen::SimpMulMono | Screen::SimpDivMono | Screen::SimpPowPow | Screen::SimpPowProd
        | Screen::SimpNegExp | Screen::SimpCombine | Screen::SimpDistrib | Screen::SimpBinPow
        | Screen::SimpIdentity | Screen::ExprSimplify => Screen::SimplifierMenu,
        Screen::FoilExpand | Screen::FactorTri | Screen::DiffSquares | Screen::PerfectSq
        | Screen::GcfFactor | Screen::PolyEval | Screen::SynthDiv | Screen::SumDiffCubes => Screen::PolyMenu,
        Screen::LinearMenu | Screen::QuadMenu | Screen::SystemsMenu | Screen::ComplexMenu
        | Screen::RefMenu | Screen::PolyMenu | Screen::SimplifierMenu => Screen::MainMenu,
        Screen::MainMenu => Screen::MainMenu,
    }
}

/// Number of items of a menu screen (0 for the other screens).
pub open spec fn spec_max_items(s: Screen) -> nat {
    match s {
        Screen::MainMenu => 7,
        Screen::LinearMenu => 5,
        Screen::QuadMenu => 3,
        Screen::SystemsMenu => 3,
        Screen::ComplexMenu => 3,
        Screen::RefMenu => 4,
        Screen::PolyMenu => 8,
        Screen::SimplifierMenu => 10,
        _ => 0,
    }
}

/// The screen that item `sel` of menu `s` opens, if any.
pub open spec fn spec_menu_target(s: Screen, sel: int) -> Option<Screen> {
    match s {
        Screen::MainMenu => if sel == 0 { Some(Screen::LinearMenu) } else if sel == 1 { Some(Screen::QuadMenu) }
            else if sel == 2 { Some(Screen::SystemsMenu) } else if sel == 3 { Some(Screen::ComplexMenu) }
            else if sel == 4 { Some(Screen::PolyMenu) } else if sel == 5 { Some(Screen::SimplifierMenu) }
            else if sel == 6 { Some(Screen::RefMenu) } else { None },
        Screen::LinearMenu => if sel == 0 { Some(Screen::TwoPtsLine) } else if sel == 1 { Some(Screen::FormConvert) }
            else if sel == 2 { Some(Screen::SlopeCalc) } else if sel == 3 { Some(Screen::InterceptFinder) }
            else if sel == 4 { Some(Screen::ParPerpSlope) } else { None },
        Screen::QuadMenu => if sel == 0 { Some(Screen::VertexConvert) } else if sel == 1 { Some(Screen::QuadAnalyzer) }
            else if sel == 2 { Some(Screen::VertexToStd) } else { None },
        Screen::SystemsMenu => if sel == 0 { Some(Screen::SystemSolver) } else if sel == 1 { Some(Screen::AbsValueSolver) }
            else if sel == 2 { Some(Screen::InequalSolver) } else { None },
        Screen::ComplexMenu => if sel == 0 { Some(Screen::ComplexArith) } else if sel == 1 { Some(Screen::PowersOfI) }
            else if sel == 2 { Some(Screen::ConjModulus) } else { None },
        Screen::RefMenu => if sel == 0 { Some(Screen::RefFieldAxioms) } else if sel == 1 { Some(Screen::RefFormulas) }
            else if sel == 2 { Some(Screen::RefProperties) } else if sel == 3 { Some(Screen::RefQuadRef) } else { None },
        Screen::PolyMenu => if sel == 0 { Some(Screen::FoilExpand) } else if sel == 1 { Some(Screen::FactorTri) }
            else if sel == 2 { Some(Screen::DiffSquares) } else if sel == 3 { Some(Screen::PerfectSq) }
            else if sel == 4 { Some(Screen::GcfFactor) } else if sel == 5 { Some(Screen::PolyEval) }
            else if sel == 6 { Some(Screen::SynthDiv) } else if sel == 7 { Some(Screen::SumDiffCubes) } else { None },
        Screen::SimplifierMenu => if sel == 0 { Some(Screen::ExprSimplify) } else if sel == 1 { Some(Screen::SimpMulMono) }
            else if sel == 2 { Some(Screen::SimpDivMono) } else if sel == 3 { Some(Screen::SimpPowPow) }
            else if sel == 4 { Some(Screen::SimpPowProd) } else if sel == 5 { Some(Screen::SimpNegExp) }
            else if sel == 6 { Some(Screen::SimpCombine) } else if sel == 7 { Some(Screen::SimpDistrib) }
            else if sel == 8 { Some(Screen::SimpBinPow) } else if sel == 9 { Some(Screen::SimpIdentity) } else { None },
        _ => None,
    }
}

/// Whether the screen is a menu.
pub fn is_menu_screen(screen: &Screen) -> (b: bool)
    ensures
        b == spec_is_menu(*screen),
{
    matches!(*screen, Screen::MainMenu | Screen::LinearMenu | Screen::QuadMenu | Screen::SystemsMenu
        | Screen::ComplexMenu | Screen::RefMenu | Screen::PolyMenu | Screen::SimplifierMenu)
}

/// Whether the screen is a reference card.
pub fn is_ref_screen(screen: &Screen) -> (b: bool)
    ensures
        b == spec_is_ref(*screen),
{
    matches!(*screen, Screen::RefFieldAxioms | Screen::RefFormulas | Screen::RefProperties | Screen::RefQuadRef)
}

/// The screen that `Back` leads to.
pub fn parent_screen(screen: &Screen) -> (p: Screen)
    ensures
        p == spec_parent(*screen),
{
    match screen {
        Screen::TwoPtsLine | Screen::FormConvert | Screen::SlopeCalc | Screen::InterceptFinder
        | Screen::ParPerpSlope => Screen::LinearMenu,
        Screen::VertexConvert | Screen::QuadAnalyzer | Screen::VertexToStd => Screen::QuadMenu,
        Screen::SystemSolver | Screen::AbsValueSolver | Screen::InequalSolver => Screen::SystemsMenu,
        Screen::ComplexArith | Screen::PowersOfI | Screen::ConjModulus => Screen::ComplexMenu,
        Screen::RefFieldAxioms | Screen::RefFormulas | Screen::RefProperties | Screen::RefQuadRef => Screen::RefMenu,
        Screen::SimpMulMono | Screen::SimpDivMono | Screen::SimpPowPow | Screen::SimpPowProd
        | Screen::SimpNegExp | Screen::SimpCombine | Screen::SimpDistrib | Screen::SimpBinPow
        | Screen::SimpIdentity | Screen::ExprSimplify => Screen::SimplifierMenu,
        Screen::FoilExpand | Screen::FactorTri | Screen::DiffSquares | Screen::PerfectSq
        | Screen::GcfFactor | Screen::PolyEval | Screen::SynthDiv | Screen::SumDiffCubes => Screen::PolyMenu,
        Screen::LinearMenu | Screen::QuadMenu | Screen::SystemsMenu | Screen::ComplexMenu
        | Screen::RefMenu | Screen::PolyMenu | Screen::SimplifierMenu => Screen::MainMenu,
        Screen::MainMenu => Screen::MainMenu,
    }
}

/// Number of items of a menu screen (0 for the other screens).
pub fn max_items(screen: &Screen) -> (n: usize)
    ensures
        n == spec_max_items(*screen),
{
    match screen {
        Screen::MainMenu => 7,
        Screen::LinearMenu => 5,
        Screen::QuadMenu => 3,
        Screen::SystemsMenu => 3,
        Screen::ComplexMenu => 3,
        Screen::RefMenu => 4,
        Screen::PolyMenu => 8,
        Screen::SimplifierMenu => 10,
        _ => 0,
    }
}

/// The screen that item `sel` of menu `screen` opens, if any.
pub fn menu_target(screen: &Screen, sel: usize) -> (t: Option<Screen>)
    ensures
        t == spec_menu_target(*screen, sel as int),
{
    match screen {
        Screen::MainMenu => match sel {
            0 => Some(Screen::LinearMenu),
            1 => Some(Screen::QuadMenu),
            2 => Some(Screen::SystemsMenu),
            3 => Some(Screen::ComplexMenu),
            4 => Some(Screen::PolyMenu),
            5 => Some(Screen::SimplifierMenu),
            6 => Some(Screen::RefMenu),
            _ => None,
        },
        Screen::LinearMenu => match sel {
            0 => Some(Screen::TwoPtsLine),
            1 => Some(Screen::FormConvert),
            2 => Some(Screen::SlopeCalc),
            3 => Some(Screen::InterceptFinder),
            4 => Some(Screen::ParPerpSlope),
            _ => None,
        },
        Screen::QuadMenu => match sel {
            0 => Some(Screen::VertexConvert),
            1 => Some(Screen::QuadAnalyzer),
            2 => Some(Screen::VertexToStd),
            _ => None,
        },
        Screen::SystemsMenu => match sel {
            0 => Some(Screen::SystemSolver),
            1 => Some(Screen::AbsValueSolver),
            2 => Some(Screen::InequalSolver),
            _ => None,
        },
        Screen::ComplexMenu => match sel {
            0 => Some(Screen::ComplexArith),
            1 => Some(Screen::PowersOfI),
            2 => Some(Screen::ConjModulus),
            _ => None,
        },
        Screen::RefMenu => match sel {
            0 => Some(Screen::RefFieldAxioms),
            1 => Some(Screen::RefFormulas),
            2 => Some(Screen::RefProperties),
            3 => Some(Screen::RefQuadRef),
            _ => None,
        },
        Screen::PolyMenu => match sel {
            0 => Some(Screen::FoilExpand),
            1 => Some(Screen::FactorTri),
            2 => Some(Screen::DiffSquares),
            3 => Some(Screen::PerfectSq),
            4 => Some(Screen::GcfFactor),
            5 => Some(Screen::PolyEval),
            6 => Some(Screen::SynthDiv),
            7 => Some(Screen::SumDiffCubes),
            _ => None,
        },
        Screen::SimplifierMenu => match sel {
            0 => Some(Screen::ExprSimplify),
            1 => Some(Screen::SimpMulMono),
            2 => Some(Screen::SimpDivMono),
            3 => Some(Screen::SimpPowPow),
            4 => Some(Screen::SimpPowProd),
            5 => Some(Screen::SimpNegExp),
            6 => Some(Screen::SimpCombine),
            7 => Some(Screen::SimpDistrib),
            8 => Some(Screen::SimpBinPow),
            9 => Some(Screen::SimpIdentity),
            _ => None,
        },
        _ => None,
    }
}

/// Two presses of `Back` reach the main menu from any screen.
pub proof fn lemma_back_twice_reaches_main(s: Screen)
    ensures
        spec_parent(spec_parent(s)) == Screen::MainMenu,
{
}

/// A menu item leads to a screen whose `Back` returns to that menu, and the
/// items that lead somewhere are exactly those below the menu's item count.
pub proof fn lemma_menu_target_parent(s: Screen, sel: int)
    ensures
        spec_menu_target(s, sel) matches Some(t) ==> spec_parent(t) == s && t != s,
        spec_menu_target(s, sel) is Some <==> (spec_is_menu(s) && 0 <= sel < spec_max_items(s)),
{
}


/// Number of input fields of a tool screen (0 for the other screens).
pub open spec fn spec_input_count(s: Screen) -> nat {
    match s {
        Screen::TwoPtsLine => 4,
        Screen::FormConvert => 2,
        Screen::SlopeCalc => 4,
        Screen::InterceptFinder => 2,
        Screen::ParPerpSlope => 2,
        Screen::VertexConvert => 3,
        Screen::QuadAnalyzer => 3,
        Screen::VertexToStd => 4,
        Screen::SystemSolver => 6,
        Screen::AbsValueSolver => 3,
        Screen::InequalSolver => 3,
        Screen::ComplexArith => 4,
        Screen::PowersOfI => 1,
        Screen::ConjModulus => 2,
        Screen::ExprSimplify => 1,
        Screen::SimpMulMono => 4,
        Screen::SimpDivMono => 4,
        Screen::SimpPowPow => 3,
        Screen::SimpPowProd => 3,
        Screen::SimpNegExp => 2,
        Screen::SimpCombine => 4,
        Screen::SimpDistrib => 6,
        Screen::SimpBinPow => 2,
        Screen::SimpIdentity => 1,
        Screen::FoilExpand => 4,
        Screen::FactorTri => 3,
        Screen::DiffSquares => 2,
        Screen::PerfectSq => 3,
        Screen::GcfFactor => 3,
        Screen::PolyEval => 4,
        Screen::SynthDiv => 5,
        Screen::SumDiffCubes => 2,
        _ => 0,
    }
}

/// Title of a tool screen (empty for the other screens).
pub open spec fn spec_tool_title(s: Screen) -> Seq<char> {
    match s {
        Screen::TwoPtsLine => "Linear > 2 Pts to Line"@,
        Screen::FormConvert => "Linear > Form Converter"@,
        Screen::SlopeCalc => "Linear > Slope Calc"@,
        Screen::InterceptFinder => "Linear > Intercepts"@,
        Screen::ParPerpSlope => "Linear > Parallel/Perp"@,
        Screen::VertexConvert => "Quad > Vertex Form Conv"@,
        Screen::QuadAnalyzer => "Quad > Quad Analyzer"@,
        Screen::VertexToStd => "Quad > Vertex to Std"@,
        Screen::SystemSolver => "Systems > 2x2 Solver"@,
        Screen::AbsValueSolver => "Systems > Abs Value"@,
        Screen::InequalSolver => "Systems > Inequality"@,
        Screen::ComplexArith => "Complex > Arithmetic"@,
        Screen::PowersOfI => "Complex > Powers of i"@,
        Screen::ConjModulus => "Complex > Conj & Mod"@,
        Screen::ExprSimplify => "General Simplify"@,
        Screen::SimpMulMono => "Simp > Multiply Monomials"@,
        Screen::SimpDivMono => "Simp > Divide Monomials"@,
        Screen::SimpPowPow => "Simp > Power of Power"@,
        Screen::SimpPowProd => "Simp > Power of Product"@,
        Screen::SimpNegExp => "Simp > Negative Exponent"@,
        Screen::SimpCombine => "Simp > Combine Like Terms"@,
        Screen::SimpDistrib => "Simp > Distribute"@,
        Screen::SimpBinPow => "Simp > Binomial Power"@,
        Screen::SimpIdentity => "Simp > Identity Rules"@,
        Screen::FoilExpand => "Poly > FOIL Expand"@,
        Screen::FactorTri => "Poly > Factor Trinomial"@,
        Screen::DiffSquares => "Poly > Diff of Squares"@,
        Screen::PerfectSq => "Poly > Perfect Square?"@,
        Screen::GcfFactor => "Poly > GCF Factor"@,
        Screen::PolyEval => "Poly > Evaluate f(x)"@,
        Screen::SynthDiv => "Poly > Synthetic Division"@,
        Screen::SumDiffCubes => "Poly > Sum/Diff Cubes"@,
        _ => ""@,
    }
}

/// Labels of the input fields of a tool screen.
pub open spec fn spec_tool_labels(s: Screen) -> Seq<Seq<char>> {
    match s {
        Screen::TwoPtsLine => seq!["x1:"@, "y1:"@, "x2:"@, "y2:"@],
        Screen::FormConvert => seq!["m (slope):"@, "b (y-int):"@],
        Screen::SlopeCalc => seq!["x1:"@, "y1:"@, "x2:"@, "y2:"@],
        Screen::InterceptFinder => seq!["m (slope):"@, "b (y-int):"@],
        Screen::ParPerpSlope => seq!["m numer:"@, "m denom:"@],
        Screen::VertexConvert => seq!["a:"@, "b:"@, "c:"@],
        Screen::QuadAnalyzer => seq!["a:"@, "b:"@, "c:"@],
        Screen::VertexToStd => seq!["h (vertex x):"@, "k (vertex y):"@, "pt x:"@, "pt y:"@],
        Screen::SystemSolver => seq!["a1:"@, "b1:"@, "c1:"@, "a2:"@, "b2:"@, "c2:"@],
        Screen::AbsValueSolver => seq!["a:"@, "b:"@, "c:"@],
        Screen::InequalSolver => seq!["a:"@, "b:"@, "c:"@],
        Screen::ComplexArith => seq!["a (Re z1):"@, "b (Im z1):"@, "c (Re z2):"@, "d (Im z2):"@],
        Screen::PowersOfI => seq!["n (exponent):"@],
        Screen::ConjModulus => seq!["a (Real):"@, "b (Imag):"@],
        Screen::ExprSimplify => seq!["Expression:"@],
        Screen::SimpMulMono => seq!["c1:"@, "exp a:"@, "c2:"@, "exp b:"@],
        Screen::SimpDivMono => seq!["c1:"@, "exp a:"@, "c2:"@, "exp b:"@],
        Screen::SimpPowPow => seq!["coef c:"@, "inner exp a:"@, "outer exp b:"@],
        Screen::SimpPowProd => seq!["coef c:"@, "exp a:"@, "power n:"@],
        Screen::SimpNegExp => seq!["coef c:"@, "exp n (pos):"@],
        Screen::SimpCombine => seq!["coef a:"@, "coef b:"@, "coef c:"@, "exp n:"@],
        Screen::SimpDistrib => seq!["outer c:"@, "outer exp:"@, "t1 coef:"@, "t1 exp:"@, "t2 coef:"@, "t2 exp:"@],
        Screen::SimpBinPow => seq!["a (ax+b):"@, "b:"@],
        Screen::SimpIdentity => seq!["base x:"@],
        Screen::FoilExpand => seq!["a (ax+b):"@, "b:"@, "c (cx+d):"@, "d:"@],
        Screen::FactorTri => seq!["a (ax^2):"@, "b (bx):"@, "c:"@],
        Screen::DiffSquares => seq!["a (ax^2 - b):"@, "b:"@],
        Screen::PerfectSq => seq!["a:"@, "b:"@, "c:"@],
        Screen::GcfFactor => seq!["term 1:"@, "term 2:"@, "term 3:"@],
        Screen::PolyEval => seq!["a (ax^2):"@, "b:"@, "c:"@, "x ="@],
        Screen::SynthDiv => seq!["a (x^3):"@, "b (x^2):"@, "c (x):"@, "d:"@, "r (x-r):"@],
        Screen::SumDiffCubes => seq!["a:"@, "b:"@],
        _ => seq![],
    }
}

/// Title and field labels of a tool screen; empty for the other screens.
pub fn tool_info(screen: &Screen) -> (r: (&'static str, &'static [&'static str]))
    ensures
        r.0@ == spec_tool_title(*screen),
        r.1@.len() == spec_input_count(*screen),
        r.1@.map_values(|l: &str| l@) == spec_tool_labels(*screen),
{
    let r: (&'static str, &'static [&'static str]) = match screen {
        Screen::TwoPtsLine => ("Linear > 2 Pts to Line",
            &["x1:", "y1:", "x2:", "y2:"]),
        Screen::FormConvert => ("Linear > Form Converter",
            &["m (slope):", "b (y-int):"]),
        Screen::SlopeCalc => ("Linear > Slope Calc",
            &["x1:", "y1:", "x2:", "y2:"]),
        Screen::InterceptFinder => ("Linear > Intercepts",
            &["m (slope):", "b (y-int):"]),
        Screen::ParPerpSlope => ("Linear > Parallel/Perp",
            &["m numer:", "m denom:"]),
        Screen::VertexConvert => ("Quad > Vertex Form Conv",
            &["a:", "b:", "c:"]),
        Screen::QuadAnalyzer => ("Quad > Quad Analyzer",
            &["a:", "b:", "c:"]),
        Screen::VertexToStd => ("Quad > Vertex to Std",
            &["h (vertex x):", "k (vertex y):", "pt x:", "pt y:"]),
        Screen::SystemSolver => ("Systems > 2x2 Solver",
            &["a1:", "b1:", "c1:", "a2:", "b2:", "c2:"]),
        Screen::AbsValueSolver => ("Systems > Abs Value",
            &["a:", "b:", "c:"]),
        Screen::InequalSolver => ("Systems > Inequality",
            &["a:", "b:", "c:"]),
        Screen::ComplexArith => ("Complex > Arithmetic",
            &["a (Re z1):", "b (Im z1):", "c (Re z2):", "d (Im z2):"]),
        Screen::PowersOfI => ("Complex > Powers of i",
            &["n (exponent):"]),
        Screen::ConjModulus => ("Complex > Conj & Mod",
            &["a (Real):", "b (Imag):"]),
        Screen::ExprSimplify => ("General Simplify",
            &["Expression:"]),
        Screen::SimpMulMono => ("Simp > Multiply Monomials",
            &["c1:", "exp a:", "c2:", "exp b:"]),
        Screen::SimpDivMono => ("Simp > Divide Monomials",
            &["c1:", "exp a:", "c2:", "exp b:"]),
        Screen::SimpPowPow => ("Simp > Power of Power",
            &["coef c:", "inner exp a:", "outer exp b:"]),
        Screen::SimpPowProd => ("Simp > Power of Product",
            &["coef c:", "exp a:", "power n:"]),
        Screen::SimpNegExp => ("Simp > Negative Exponent",
            &["coef c:", "exp n (pos):"]),
        Screen::SimpCombine => ("Simp > Combine Like Terms",
            &["coef a:", "coef b:", "coef c:", "exp n:"]),
        Screen::SimpDistrib => ("Simp > Distribute",
            &["outer c:", "outer exp:", "t1 coef:", "t1 exp:", "t2 coef:", "t2 exp:"]),
        Screen::SimpBinPow => ("Simp > Binomial Power",
            &["a (ax+b):", "b:"]),
        Screen::SimpIdentity => ("Simp > Identity Rules",
            &["base x:"]),
        Screen::FoilExpand => ("Poly > FOIL Expand",
            &["a (ax+b):", "b:", "c (cx+d):", "d:"]),
        Screen::FactorTri => ("Poly > Factor Trinomial",
            &["a (ax^2):", "b (bx):", "c:"]),
        Screen::DiffSquares => ("Poly > Diff of Squares",
            &["a (ax^2 - b):", "b:"]),
        Screen::PerfectSq => ("Poly > Perfect Square?",
            &["a:", "b:", "c:"]),
        Screen::GcfFactor => ("Poly > GCF Factor",
            &["term 1:", "term 2:", "term 3:"]),
        Screen::PolyEval => ("Poly > Evaluate f(x)",
            &["a (ax^2):", "b:", "c:", "x ="]),
        Screen::SynthDiv => ("Poly > Synthetic Division",
            &["a (x^3):", "b (x^2):", "c (x):", "d:", "r (x-r):"]),
        Screen::SumDiffCubes => ("Poly > Sum/Diff Cubes",
            &["a:", "b:"]),
        _ => ("", &[]),
    };
    proof {
        assert(r.1@.map_values(|l: &str| l@) =~= spec_tool_labels(*screen));
    }
    r
}

/// Every tool screen has between one and six fields.
pub proof fn lemma_input_count_bounds(s: Screen)
    ensures
        spec_input_count(s) <= 6,
        spec_input_count(s) == spec_tool_labels(s).len(),
        (!spec_is_menu(s) && !spec_is_ref(s)) ==> spec_input_count(s) >= 1,
{
}

} // verus!
