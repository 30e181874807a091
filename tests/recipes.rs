use ninepaste::recipe::{RecipeId, Transformation};
use ninepaste::Recipe;

#[test]
fn test_recipe_apply() {
    let mut recipe = Recipe::new("Test", RecipeId(1), 0);
    recipe.add_transformation(Transformation::ToUppercase, 0);
    recipe.add_transformation(Transformation::TrimLines, 0);

    let result = recipe.apply("  hello world  ");
    assert_eq!(result, "HELLO WORLD");
}

#[test]
fn test_transformation_chain() {
    let mut recipe = Recipe::new("Test", RecipeId(1), 0);
    recipe.add_transformation(Transformation::FixSmartQuotes, 0);
    recipe.add_transformation(Transformation::NormalizeWhitespace, 0);
    recipe.add_transformation(Transformation::ToTitleCase, 0);

    let input = "  \u{201C}hello\u{201D}   world  ";
    let result = recipe.apply(input);
    assert_eq!(result, "\"hello\" World");
}
