use project_switch::dispatch::Action;
use project_switch::launch::{browser_command, invocation_for, path_command, shell_command, Invocation};
use project_switch::shortcuts::Platform;

fn inv(program: &str, args: &[&str]) -> Invocation {
    Invocation { program: program.to_string(), args: args.iter().map(|a| a.to_string()).collect() }
}

#[test]
fn browser_on_linux() {
    assert_eq!(browser_command(Platform::Other, "Default", "https://x/"), inv("xdg-open", &["https://x/"]));
    assert_eq!(browser_command(Platform::Other, "firefox", "https://x/"), inv("firefox", &["https://x/"]));
    assert_eq!(browser_command(Platform::Other, "firefox  -P  work", "https://x/"), inv("firefox", &["-P", "work", "https://x/"]));
}

#[test]
fn browser_on_macos() {
    assert_eq!(browser_command(Platform::MacOs, "default", "https://x/"), inv("open", &["https://x/"]));
    assert_eq!(browser_command(Platform::MacOs, "Safari", "https://x/"), inv("open", &["-a", "Safari", "https://x/"]));
    assert_eq!(
        browser_command(Platform::MacOs, "Firefox -P work", "https://x/"),
        inv("open", &["-a", "Firefox", "--args", "-P", "work", "https://x/"])
    );
}

#[test]
fn browser_on_windows() {
    assert_eq!(
        browser_command(Platform::Windows, "default", "https://x/"),
        inv("powershell", &["-Command", "Set-Location C:\\; Start-Process 'https://x/'"])
    );
    assert_eq!(
        browser_command(Platform::Windows, "firefox -P work", "https://x/"),
        inv("powershell", &["-Command", "Set-Location C:\\; Start-Process 'firefox' '-P work https://x/'"])
    );
    assert_eq!(
        browser_command(Platform::Windows, "chrome", "https://x/"),
        inv("powershell", &["-Command", "Set-Location C:\\; Start-Process 'chrome' 'https://x/'"])
    );
}

#[test]
fn shell_commands() {
    assert_eq!(shell_command(Platform::Other, "ls", Some("-la")), inv("sh", &["-c", "ls -la"]));
    assert_eq!(shell_command(Platform::Other, "ls", Some("")), inv("sh", &["-c", "ls"]));
    assert_eq!(shell_command(Platform::Windows, "dir", Some("/s")), inv("powershell", &["-Command", "dir", "/s"]));
    assert_eq!(shell_command(Platform::Windows, "dir", None), inv("powershell", &["-Command", "dir"]));
}

#[test]
fn paths_and_actions() {
    assert_eq!(path_command(Platform::MacOs, "/Applications/Safari.app"), inv("open", &["/Applications/Safari.app"]));
    assert_eq!(path_command(Platform::Windows, "C:\\a.lnk"), inv("powershell", &["-Command", "Start-Process 'C:\\a.lnk'"]));
    let a = Action::RunCommand { command: "make".to_string(), args: Some("all".to_string()) };
    assert_eq!(invocation_for(Platform::Other, &a), inv("sh", &["-c", "make all"]));
    let b = Action::LaunchPath { path: "/x".to_string() };
    assert_eq!(invocation_for(Platform::Other, &b), inv("xdg-open", &["/x"]));
}
