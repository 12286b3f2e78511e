use book_manager::auth::authenticate;
use book_manager::handler::{
    change_password, change_role, checkout_book, checkout_history, delete_user, get_checkouts,
    get_current_user, list_users, login, logout, register_user, return_book,
    show_checked_out_list,
};
use book_manager::model::{
    AccessToken, AppError, AuthorizedUser, BookId, CheckoutId, CreateUser, LoginRequest, Role,
    UpdateUserRole, UserId,
};
use book_manager::registry::AppRegistry;
use book_manager::repository::{CheckoutRepository, UserRepository};

fn registration(name: &str, email: &str, password: &str) -> CreateUser {
    CreateUser {
        name: String::from(name),
        email: String::from(email),
        password: String::from(password),
    }
}

fn registry() -> AppRegistry {
    let mut registry = AppRegistry::new(3_600_000, 4);
    let root = registry.users.create(registration("Root", "root@x.com", "toor")).unwrap();
    registry.users.update_role(UpdateUserRole { user_id: root.id, role: Role::Admin }).unwrap();
    registry.users.create(registration("Ann", "a@x.com", "secret")).unwrap();
    registry
}

fn sign_in(registry: &mut AppRegistry, email: &str, password: &str) -> AuthorizedUser {
    let req = LoginRequest { email: String::from(email), password: String::from(password) };
    let resp = login(registry, &req, 0).unwrap();
    authenticate(&registry.users, &registry.tokens, &AccessToken(resp.access_token), 0).unwrap()
}

#[test]
fn new_registry_is_empty() {
    let registry = AppRegistry::new(10, 4);
    assert!(registry.users.find_all().is_empty());
    assert!(registry.ledger.find_unreturned_all().is_empty());
    assert_eq!(registry.tokens.ttl(), 10);
}

#[test]
fn login_handler_issues_token_that_lives_from_the_request_time() {
    let mut registry = registry();
    let req = LoginRequest { email: String::from("a@x.com"), password: String::from("secret") };
    let resp = login(&mut registry, &req, 5_000).unwrap();
    assert_eq!(resp.user_id, UserId(1));
    assert_eq!(resp.access_token.chars().count(), 32);
    let token = AccessToken(resp.access_token);
    assert_eq!(registry.tokens.resolve(&token, 5_000), Ok(UserId(1)));
    assert_eq!(registry.tokens.resolve(&token, 5_000 + 3_600_000 - 1), Ok(UserId(1)));
    assert_eq!(registry.tokens.resolve(&token, 5_000 + 3_600_000), Err(AppError::TokenNotFound));
}

#[test]
fn login_handler_rejects_bad_credentials() {
    let mut registry = registry();
    let req = LoginRequest { email: String::from("a@x.com"), password: String::from("nope") };
    assert_eq!(login(&mut registry, &req, 0), Err(AppError::InvalidCredentials));
    let unknown = LoginRequest { email: String::from("b@x.com"), password: String::from("secret") };
    assert_eq!(login(&mut registry, &unknown, 0), Err(AppError::InvalidCredentials));
}

#[test]
fn logout_handler_revokes_the_session() {
    let mut registry = registry();
    let ann = sign_in(&mut registry, "a@x.com", "secret");
    assert_eq!(logout(&ann, &mut registry), Ok(()));
    assert_eq!(
        authenticate(&registry.users, &registry.tokens, &ann.access_token, 0),
        Err(AppError::Unauthenticated)
    );
}

#[test]
fn checkout_and_return_handlers_stamp_the_request_time() {
    let mut registry = registry();
    let ann = sign_in(&mut registry, "a@x.com", "secret");
    let root = sign_in(&mut registry, "root@x.com", "toor");
    assert_eq!(checkout_book(&ann, BookId(1), &mut registry, 100), Ok(()));
    assert_eq!(
        checkout_book(&root, BookId(1), &mut registry, 110),
        Err(AppError::BookAlreadyCheckedOut)
    );
    let mine = get_checkouts(&ann, &registry).unwrap();
    assert_eq!(mine.len(), 1);
    assert_eq!(mine[0].checked_out_by, ann.id());
    assert_eq!(mine[0].checked_out_at, 100);
    assert!(get_checkouts(&root, &registry).unwrap().is_empty());
    assert_eq!(show_checked_out_list(&root, &registry).unwrap(), mine);

    assert_eq!(
        return_book(&ann, BookId(2), mine[0].id, &mut registry, 200),
        Err(AppError::CheckoutNotFound)
    );
    assert_eq!(
        return_book(&ann, BookId(1), CheckoutId(5), &mut registry, 200),
        Err(AppError::CheckoutNotFound)
    );
    assert_eq!(return_book(&ann, BookId(1), mine[0].id, &mut registry, 200), Ok(()));
    assert_eq!(
        return_book(&ann, BookId(1), mine[0].id, &mut registry, 300),
        Err(AppError::AlreadyReturned)
    );
    let history = checkout_history(&root, BookId(1), &registry).unwrap();
    assert_eq!(history.len(), 1);
    assert_eq!(history[0].checked_out_at, 100);
    assert_eq!(history[0].returned_at, Some(200));
    assert!(show_checked_out_list(&root, &registry).unwrap().is_empty());
}

#[test]
fn of_many_checkout_requests_the_first_to_arrive_wins() {
    let mut registry = registry();
    let ann = sign_in(&mut registry, "a@x.com", "secret");
    let root = sign_in(&mut registry, "root@x.com", "toor");
    let mut ok = 0;
    let mut refused = 0;
    for k in 0..20i64 {
        let who = if k % 2 == 0 { &root } else { &ann };
        match checkout_book(who, BookId(9), &mut registry, 1_000 - k) {
            Ok(()) => ok += 1,
            Err(AppError::BookAlreadyCheckedOut) => refused += 1,
            Err(e) => panic!("unexpected error {:?}", e),
        }
    }
    assert_eq!((ok, refused), (1, 19));
    let open = show_checked_out_list(&root, &registry).unwrap();
    assert_eq!(open.len(), 1);
    assert_eq!(open[0].checked_out_by, root.id());
    assert_eq!(open[0].checked_out_at, 1_000);
}

#[test]
fn register_user_is_admin_only() {
    let mut registry = registry();
    let ann = sign_in(&mut registry, "a@x.com", "secret");
    let root = sign_in(&mut registry, "root@x.com", "toor");
    assert_eq!(
        register_user(&ann, &mut registry, registration("Bob", "bob@x.com", "pw")),
        Err(AppError::Forbidden)
    );
    assert_eq!(registry.users.find_all().len(), 2);
    let bob = register_user(&root, &mut registry, registration("Bob", "bob@x.com", "pw")).unwrap();
    assert_eq!(bob.id, UserId(2));
    assert_eq!(registry.users.find_all().len(), 3);
    assert_eq!(bob.role, Role::Patron);
    assert_eq!(
        register_user(&root, &mut registry, registration("Bob", "bob@x.com", "pw")),
        Err(AppError::PersistenceFailure)
    );
    assert_eq!(sign_in(&mut registry, "bob@x.com", "pw").id(), UserId(2));
}

#[test]
fn list_users_is_admin_only() {
    let mut registry = registry();
    let ann = sign_in(&mut registry, "a@x.com", "secret");
    let root = sign_in(&mut registry, "root@x.com", "toor");
    assert_eq!(list_users(&ann, &registry), Err(AppError::Forbidden));
    let all = list_users(&root, &registry).unwrap();
    assert_eq!(all.len(), 2);
    assert_eq!(all[0].id, UserId(0));
    assert_eq!(all[1].email, "a@x.com");
}

#[test]
fn delete_user_is_admin_only() {
    let mut registry = registry();
    let ann = sign_in(&mut registry, "a@x.com", "secret");
    let root = sign_in(&mut registry, "root@x.com", "toor");
    assert_eq!(delete_user(&ann, UserId(0), &mut registry), Err(AppError::Forbidden));
    assert_eq!(delete_user(&root, UserId(9), &mut registry), Err(AppError::NotFound));
    assert_eq!(delete_user(&root, UserId(1), &mut registry), Ok(()));
    assert_eq!(
        authenticate(&registry.users, &registry.tokens, &ann.access_token, 0),
        Err(AppError::Unauthenticated)
    );
}

#[test]
fn change_role_is_admin_only_and_immediate() {
    let mut registry = registry();
    let ann = sign_in(&mut registry, "a@x.com", "secret");
    let root = sign_in(&mut registry, "root@x.com", "toor");
    assert_eq!(change_role(&ann, UserId(1), &mut registry, Role::Admin), Err(AppError::Forbidden));
    assert_eq!(change_role(&root, UserId(9), &mut registry, Role::Admin), Err(AppError::NotFound));
    assert_eq!(change_role(&root, UserId(1), &mut registry, Role::Admin), Ok(()));
    let ann_now =
        authenticate(&registry.users, &registry.tokens, &ann.access_token, 0).unwrap();
    assert_eq!(ann_now.user.role, Role::Admin);
    assert!(list_users(&ann_now, &registry).is_ok());
}

#[test]
fn get_current_user_returns_the_identity_record() {
    let mut registry = registry();
    let ann = sign_in(&mut registry, "a@x.com", "secret");
    assert_eq!(get_current_user(&ann), ann.user);
}

#[test]
fn change_password_handler_acts_on_the_caller() {
    let mut registry = registry();
    let ann = sign_in(&mut registry, "a@x.com", "secret");
    assert_eq!(
        change_password(&ann, &mut registry, String::from("bad"), String::from("fresh")),
        Err(AppError::InvalidCredentials)
    );
    assert_eq!(
        change_password(&ann, &mut registry, String::from("secret"), String::from("fresh")),
        Ok(())
    );
    assert_eq!(sign_in(&mut registry, "a@x.com", "fresh").id(), UserId(1));
    let old = LoginRequest { email: String::from("a@x.com"), password: String::from("secret") };
    assert_eq!(login(&mut registry, &old, 0), Err(AppError::InvalidCredentials));
    assert_eq!(sign_in(&mut registry, "root@x.com", "toor").id(), UserId(0));
}
