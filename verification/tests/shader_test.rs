use live_ascii::shader::{Shader, ShaderManager};

#[test]
fn new_manager_starts_with_the_ascii_ramp() {
    let m = ShaderManager::new();
    match m.current_shader() {
        Shader::Char(c) => assert_eq!(c, &vec![' ', '.', ':', '-', '=', '+', '*', '#', '%', '@']),
        Shader::Text(_) => panic!("expected a character ramp"),
    }
}

#[test]
fn next_walks_the_shaders_and_wraps() {
    let mut m = ShaderManager::new();
    m.next();
    match m.current_shader() {
        Shader::Text(t) => assert_eq!(t, "HELLO"),
        Shader::Char(_) => panic!("expected the text shader"),
    }
    m.next();
    match m.current_shader() {
        Shader::Char(c) => assert_eq!(c[8], '⣿'),
        Shader::Text(_) => panic!("expected the braille ramp"),
    }
    m.next();
    match m.current_shader() {
        Shader::Char(c) => assert_eq!(c[8], '█'),
        Shader::Text(_) => panic!("expected the block ramp"),
    }
    m.next();
    match m.current_shader() {
        Shader::Char(c) => assert_eq!(c[9], '@'),
        Shader::Text(_) => panic!("expected the ascii ramp again"),
    }
}
