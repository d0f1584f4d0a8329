use garlic::render::{container_style, draggable_style, fit_content_style, item_style, list_style, px};
use garlic::Direction;

#[test]
fn px_writes_integers_in_decimal() {
    assert_eq!(px(0), "0px");
    assert_eq!(px(7), "7px");
    assert_eq!(px(120), "120px");
    assert_eq!(px(-12), "-12px");
    assert_eq!(px(1_000_000_007), "1000000007px");
    assert_eq!(px(i128::MIN), format!("{}px", i128::MIN));
    assert_eq!(px(i128::MAX), format!("{}px", i128::MAX));
}

#[test]
fn item_style_places_the_item() {
    assert_eq!(
        item_style(10, -4).to_string(),
        "position:absolute;user-select:none;-webkit-user-select:none;-moz-user-select:none;-ms-user-select:none;left:10px;top:-4px;"
    );
}

#[test]
fn draggable_style_while_dragged_and_at_rest() {
    assert_eq!(
        draggable_style("color: red; cursor: move", true, (30, 40)).to_string(),
        "color:red;cursor:grabbing;position:absolute;left:30px;top:40px;z-index:1000;"
    );
    assert_eq!(draggable_style("color: red", false, (30, 40)).to_string(), "color:red;cursor:grab;");
}

#[test]
fn container_style_lets_the_caller_override() {
    assert_eq!(container_style(400, 40, "").to_string(), "width:400px;height:40px;");
    assert_eq!(
        container_style(400, 40, "height: auto; margin: 0").to_string(),
        "width:400px;height:auto;margin:0;"
    );
}

#[test]
fn fit_content_style_lets_the_caller_override() {
    assert_eq!(fit_content_style("").to_string(), "width:fit-content;height:fit-content;");
    assert_eq!(fit_content_style("width:100%").to_string(), "width:100%;height:fit-content;");
}

#[test]
fn list_style_follows_the_direction() {
    assert_eq!(list_style(Direction::Row).to_string(), "display:flex;flex-direction:row;");
    assert_eq!(list_style(Direction::Column).to_string(), "display:flex;flex-direction:column;");
}
