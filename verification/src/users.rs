use vstd::prelude::*;
use crate::login::{password_hash_for, HashingFailed, argon2_verdict, MAX_PASSWORD_BYTES};
use vstd::string::StringSliceAdditionalSpecFns;

verus! {

/// A user's role: plain users see only their own company, staff and admins
/// see every company.
#[derive(PartialEq, Eq, Structural, Clone, Copy, Debug)]
pub enum UserCategory {
    User,
    Staff,
    Admin,
}

/// What a user may do through the web pages.
#[derive(PartialEq, Eq, Structural, Clone, Copy, Debug)]
pub enum WebAccess {
    Blocked,
    Readonly,
    Full,
}

/// What a user may do through the data API.
#[derive(PartialEq, Eq, Structural, Clone, Copy, Debug)]
pub enum ApiAccess {
    Blocked,
    Readonly,
    Full,
}

/// An account of the service.
#[derive(Clone, Debug)]
pub struct User {
    pub id: String,
    pub uuid: i16,
    pub category: UserCategory,
    pub company: String,
    pub first_name: String,
    pub last_name: String,
    pub email: String,
    pub last_active: i32,
    pub web_access: WebAccess,
    pub api_access: ApiAccess,
}

/// A client company; wells and users belong to one.
#[derive(Clone, Debug)]
pub struct Company {
    pub id: String,
    pub name: String,
}

/// The order of the categories: `User < Staff < Admin`.
pub open spec fn category_rank(c: UserCategory) -> int {
    match c {
        UserCategory::User => 0,
        UserCategory::Staff => 1,
        UserCategory::Admin => 2,
    }
}

/// The order of web access levels: `Blocked < Readonly < Full`.
pub open spec fn web_rank(a: WebAccess) -> int {
    match a {
        WebAccess::Blocked => 0,
        WebAccess::Readonly => 1,
        WebAccess::Full => 2,
    }
}

/// The order of API access levels: `Blocked < Readonly < Full`.
pub open spec fn api_rank(a: ApiAccess) -> int {
    match a {
        ApiAccess::Blocked => 0,
        ApiAccess::Readonly => 1,
        ApiAccess::Full => 2,
    }
}

/// The id of the operating company, whose staff administers all others.
pub open spec fn home_company() -> Seq<char> {
    seq!['g', 'e', 'o', 'm', 'e', 'c']
}

pub fn category_level(c: UserCategory) -> (r: u8)
    ensures
        r == category_rank(c),
{
    match c {
        UserCategory::User => 0,
        UserCategory::Staff => 1,
        UserCategory::Admin => 2,
    }
}

/// Whether `s` is the id of the operating company.
pub fn is_home_company(s: &str) -> (r: bool)
    ensures
        r == (s@ == home_company()),
{
    let a = String::from_str(s);
    let b = String::from_str("geomec");
    proof {
        reveal_strlit("geomec");
    }
    assert("geomec"@ =~= home_company());
    a == b
}

/// Whether two texts are equal.
pub fn same_text(a: &str, b: &str) -> (r: bool)
    ensures
        r == (a@ == b@),
{
    let x = String::from_str(a);
    let y = String::from_str(b);
    x == y
}

// ---------------------------------------------------------------------------
// request guards

/// Admits administrators only.
pub fn only_admin(user: &User) -> (r: bool)
    ensures
        r == (user.category == UserCategory::Admin),
{
    user.category == UserCategory::Admin
}

/// Admits staff and administrators.
pub fn staff_admin(user: &User) -> (r: bool)
    ensures
        r == (category_rank(user.category) > category_rank(UserCategory::User)),
{
    category_level(user.category) > 0
}

/// Admits users who may at least read the web pages.
pub fn can_web_read(user: &User) -> (r: bool)
    ensures
        r == (web_rank(user.web_access) >= web_rank(WebAccess::Readonly)),
{
    match user.web_access {
        WebAccess::Blocked => false,
        _ => true,
    }
}

/// Admits users with full web access.
pub fn can_web_full(user: &User) -> (r: bool)
    ensures
        r == (user.web_access == WebAccess::Full),
{
    user.web_access == WebAccess::Full
}

/// Admits users who may at least read through the API.
pub fn can_api_read(user: &User) -> (r: bool)
    ensures
        r == (api_rank(user.api_access) >= api_rank(ApiAccess::Readonly)),
{
    match user.api_access {
        ApiAccess::Blocked => false,
        _ => true,
    }
}

/// Admits users with full API access.
pub fn can_api_full(user: &User) -> (r: bool)
    ensures
        r == (user.api_access == ApiAccess::Full),
{
    user.api_access == ApiAccess::Full
}

// ---------------------------------------------------------------------------
// what a user may see

pub open spec fn spec_company_visible(user: User, company_id: Seq<char>) -> bool {
    user.category != UserCategory::User || company_id == user.company@
}

pub open spec fn spec_well_visible(user: User, company_id: Seq<char>, well_company: Seq<char>) -> bool {
    user.category != UserCategory::User || (user.company@ == company_id && company_id
        == well_company)
}

pub open spec fn spec_well_item_visible(
    user: User,
    company_id: Seq<char>,
    well_company: Seq<char>,
    well_uuid: i16,
    item_well: i16,
) -> bool {
    user.category != UserCategory::User || (user.company@ == company_id && company_id
        == well_company && well_uuid == item_well)
}

/// Whether `user` may open the company `company_id`.
pub fn company_visible(user: &User, company_id: &String) -> (r: bool)
    ensures
        r == spec_company_visible(*user, company_id@),
{
    if user.category == UserCategory::User {
        *company_id == user.company
    } else {
        true
    }
}

/// Whether `user` may open a well of company `well_company`, reached through
/// the company `company_id` of the url.
pub fn well_visible(user: &User, company_id: &String, well_company: &String) -> (r: bool)
    ensures
        r == spec_well_visible(*user, company_id@, well_company@),
{
    if user.category == UserCategory::User {
        user.company == *company_id && *company_id == *well_company
    } else {
        true
    }
}

/// Whether `user` may open a cycle or a custom tag that belongs to the well
/// `item_well`, reached through the company `company_id` and the well
/// `well_uuid` (of company `well_company`) of the url.
pub fn well_item_visible(
    user: &User,
    company_id: &String,
    well_company: &String,
    well_uuid: i16,
    item_well: i16,
) -> (r: bool)
    ensures
        r == spec_well_item_visible(*user, company_id@, well_company@, well_uuid, item_well),
{
    if user.category == UserCategory::User {
        user.company == *company_id && *company_id == *well_company && well_uuid == item_well
    } else {
        true
    }
}

/// Which companies the company list shows to a user.
#[derive(Clone, Debug)]
pub enum CompanyScope {
    All,
    Only(String),
}

pub open spec fn scope_contains(scope: CompanyScope, company_id: Seq<char>) -> bool {
    match scope {
        CompanyScope::All => true,
        CompanyScope::Only(id) => id@ == company_id,
    }
}

/// Staff and administrators list every company, a plain user only his own.
pub fn companies_scope(user: &User) -> (r: CompanyScope)
    ensures
        category_rank(user.category) > 0 ==> r is All,
        category_rank(user.category) == 0 ==> (r matches CompanyScope::Only(id) && id@
            == user.company@),
{
    if category_level(user.category) > 0 {
        CompanyScope::All
    } else {
        CompanyScope::Only(user.company.clone())
    }
}

// ---------------------------------------------------------------------------
// what a user may change

/// Why a change to another account is refused.
#[derive(PartialEq, Eq, Structural, Clone, Copy, Debug)]
pub enum PermissionError {
    OtherAdmin,
    OtherUser,
}

pub open spec fn spec_password_permission(user: User, xuser: User) -> Result<(), PermissionError> {
    if user.category == UserCategory::Admin && xuser.category == UserCategory::Admin
        && user.id@ != xuser.id@ {
        Err(PermissionError::OtherAdmin)
    } else if category_rank(user.category) < category_rank(UserCategory::Admin) && user.id@
        != xuser.id@ {
        Err(PermissionError::OtherUser)
    } else {
        Ok(())
    }
}

/// Whether `user` may set the password of `xuser`: everyone may change his
/// own, administrators those of non-administrators too.
pub fn password_edit_permission(user: &User, xuser: &User) -> (r: Result<(), PermissionError>)
    ensures
        r == spec_password_permission(*user, *xuser),
{
    let same = user.id == xuser.id;
    if user.category == UserCategory::Admin && xuser.category == UserCategory::Admin && !same {
        Err(PermissionError::OtherAdmin)
    } else if category_level(user.category) < 2 && !same {
        Err(PermissionError::OtherUser)
    } else {
        Ok(())
    }
}

/// Whether `user` (an administrator) may edit or delete the account `xuser`:
/// refused only for another administrator.
pub fn account_change_permission(user: &User, xuser: &User) -> (r: bool)
    ensures
        r == !(xuser.category == UserCategory::Admin && user.id@ != xuser.id@),
{
    !(xuser.category == UserCategory::Admin && !(user.id == xuser.id))
}

/// Whether an account of `category` may be created in company `company_id`:
/// other companies than the operating one get plain users only.
pub fn new_user_category_allowed(category: UserCategory, company_id: &str) -> (r: bool)
    ensures
        r == (category == UserCategory::User || company_id@ == home_company()),
{
    category == UserCategory::User || is_home_company(company_id)
}

/// Whether the company `company_id` may be deleted; the operating company
/// may not.
pub fn company_deletable(company_id: &str) -> (r: bool)
    ensures
        r == (company_id@ != home_company()),
{
    !is_home_company(company_id)
}

/// Whether the user list offers to delete the account `xuserid` of category
/// `xusercategory` to the viewer `userid`, in company `companyid`.
pub fn tera_can_delete_user(xusercategory: &str, xuserid: &str, userid: &str, companyid: &str) -> (r:
    bool)
    ensures
        r == !(companyid@ == home_company() && xusercategory@ == seq!['A', 'd', 'm', 'i', 'n']
            && xuserid@ != userid@),
{
    if is_home_company(companyid) {
        proof {
            reveal_strlit("Admin");
        }
        assert("Admin"@ =~= seq!['A', 'd', 'm', 'i', 'n']);
        if same_text(xusercategory, "Admin") && !same_text(xuserid, userid) {
            false
        } else {
            true
        }
    } else {
        true
    }
}

pub open spec fn spec_category_activator(
    companyid: Seq<char>,
    is_new_mode: bool,
    xusercategory: Seq<char>,
    refcategory: Seq<char>,
) -> Seq<char> {
    if companyid == home_company() {
        if is_new_mode {
            seq![]
        } else if xusercategory == refcategory {
            seq![' ', 'c', 'h', 'e', 'c', 'k', 'e', 'd']
        } else {
            seq![]
        }
    } else {
        if is_new_mode {
            if xusercategory == seq!['U', 's', 'e', 'r'] {
                seq![' ', 'c', 'h', 'e', 'c', 'k', 'e', 'd', ' ']
            } else {
                seq![]
            }
        } else if xusercategory == refcategory {
            seq![' ', 'c', 'h', 'e', 'c', 'k', 'e', 'd']
        } else {
            seq![]
        }
    }
}

/// The attribute that marks the radio button of category `xusercategory` as
/// checked in the user form, for the button of category `refcategory`.
pub fn tera_user_category_activator(
    companyid: &str,
    is_new_mode: bool,
    xusercategory: &str,
    refcategory: &str,
) -> (r: &'static str)
    ensures
        r@ == spec_category_activator(companyid@, is_new_mode, xusercategory@, refcategory@),
{
    proof {
        reveal_strlit("");
        reveal_strlit(" checked");
        reveal_strlit(" checked ");
        reveal_strlit("User");
    }
    assert(""@ =~= Seq::<char>::empty());
    assert(" checked"@ =~= seq![' ', 'c', 'h', 'e', 'c', 'k', 'e', 'd']);
    assert(" checked "@ =~= seq![' ', 'c', 'h', 'e', 'c', 'k', 'e', 'd', ' ']);
    assert("User"@ =~= seq!['U', 's', 'e', 'r']);
    if is_home_company(companyid) {
        if is_new_mode {
            ""
        } else if same_text(xusercategory, refcategory) {
            " checked"
        } else {
            ""
        }
    } else {
        if is_new_mode {
            if same_text(xusercategory, "User") {
                " checked "
            } else {
                ""
            }
        } else if same_text(xusercategory, refcategory) {
            " checked"
        } else {
            ""
        }
    }
}

/// Why a new account is refused.
#[derive(PartialEq, Eq, Structural, Clone, Copy, Debug)]
pub enum NewUserError {
    /// only plain users may be created outside the operating company
    CategoryNotAllowed,
    /// the password could not be hashed
    Hashing,
}

/// The password hash stored for a new account of `category` in company
/// `company_id`, refused before any hashing when the category is not allowed
/// there; otherwise hashing fails only for a password longer than
/// [`MAX_PASSWORD_BYTES`] bytes.
pub fn new_user_password_hash(category: UserCategory, company_id: &str, password: &str) -> (r: Result<String, NewUserError>)
    ensures
        !(category == UserCategory::User || company_id@ == home_company()) ==> r
            == Err::<String, NewUserError>(NewUserError::CategoryNotAllowed),
        (category == UserCategory::User || company_id@ == home_company()) ==> (r is Ok <==> password.spec_bytes().len()
            <= MAX_PASSWORD_BYTES),
        (category == UserCategory::User || company_id@ == home_company()) ==> (r is Err ==> r
            == Err::<String, NewUserError>(NewUserError::Hashing)),
        r matches Ok(h) ==> argon2_verdict(password@, h@) == Some(true),
{
    if !new_user_category_allowed(category, company_id) {
        return Err(NewUserError::CategoryNotAllowed);
    }
    match password_hash_for(password) {
        Ok(h) => Ok(h),
        Err(HashingFailed) => Err(NewUserError::Hashing),
    }
}

/// Why a password change is refused.
#[derive(PartialEq, Eq, Structural, Clone, Copy, Debug)]
pub enum PasswordChangeError {
    Refused(PermissionError),
    Hashing,
}

/// The new password hash of `xuser`, set by `user`: refused before any
/// hashing when `user` may not change that password; otherwise hashing fails
/// only for a password longer than [`MAX_PASSWORD_BYTES`] bytes.
pub fn new_password_hash(user: &User, xuser: &User, password: &str) -> (r: Result<String, PasswordChangeError>)
    ensures
        match spec_password_permission(*user, *xuser) {
            Err(e) => r == Err::<String, PasswordChangeError>(PasswordChangeError::Refused(e)),
            Ok(_) => (r is Ok <==> password.spec_bytes().len() <= MAX_PASSWORD_BYTES) && (r is Err ==> r
                == Err::<String, PasswordChangeError>(PasswordChangeError::Hashing)),
        },
        r matches Ok(h) ==> argon2_verdict(password@, h@) == Some(true),
{
    match password_edit_permission(user, xuser) {
        Err(e) => Err(PasswordChangeError::Refused(e)),
        Ok(()) => match password_hash_for(password) {
            Ok(h) => Ok(h),
            Err(HashingFailed) => Err(PasswordChangeError::Hashing),
        },
    }
}

/// Which updates an edit of an account runs beside the category and access
/// levels, which are always written: the e-mail when it changed, the names
/// when either changed.
#[derive(PartialEq, Eq, Structural, Clone, Copy, Debug)]
pub struct AccountUpdates {
    pub email: bool,
    pub names: bool,
}

pub fn account_updates(xuser: &User, email: &str, first_name: &str, last_name: &str) -> (r: AccountUpdates)
    ensures
        r.email == (xuser.email@ != email@),
        r.names == (xuser.first_name@ != first_name@ || xuser.last_name@ != last_name@),
{
    AccountUpdates {
        email: !same_text(xuser.email.as_str(), email),
        names: !same_text(xuser.first_name.as_str(), first_name) || !same_text(
            xuser.last_name.as_str(),
            last_name,
        ),
    }
}

// ---------------------------------------------------------------------------
// laws

/// A well is visible only through a company that is visible, and a cycle or
/// custom tag only through a well that is visible.
pub proof fn visibility_narrows(
    user: User,
    company_id: Seq<char>,
    well_company: Seq<char>,
    well_uuid: i16,
    item_well: i16,
)
    ensures
        spec_well_item_visible(user, company_id, well_company, well_uuid, item_well)
            ==> spec_well_visible(user, company_id, well_company),
        spec_well_visible(user, company_id, well_company) ==> spec_company_visible(user, company_id),
        spec_well_visible(user, company_id, well_company) ==> spec_company_visible(user, well_company),
{
}

/// The company list shows exactly the companies that the user may open.
pub proof fn scope_matches_visibility(user: User, scope: CompanyScope, company_id: Seq<char>)
    requires
        category_rank(user.category) > 0 ==> scope is All,
        category_rank(user.category) == 0 ==> (scope matches CompanyScope::Only(id) && id@
            == user.company@),
    ensures
        scope_contains(scope, company_id) == spec_company_visible(user, company_id),
{
}

/// Everyone may change his own password, and an administrator that of any
/// account that is not another administrator's.
pub proof fn own_password_always_editable(user: User, xuser: User)
    ensures
        user.id@ == xuser.id@ ==> spec_password_permission(user, xuser) is Ok,
        user.category == UserCategory::Admin && xuser.category != UserCategory::Admin
            ==> spec_password_permission(user, xuser) is Ok,
        spec_password_permission(user, xuser) is Ok ==> user.id@ == xuser.id@ || (user.category
            == UserCategory::Admin && xuser.category != UserCategory::Admin),
{
}

/// Full access implies read access, and the administrator guard implies the
/// staff guard.
pub proof fn guards_are_ordered(user: User)
    ensures
        user.web_access == WebAccess::Full ==> web_rank(user.web_access) >= web_rank(
            WebAccess::Readonly,
        ),
        user.api_access == ApiAccess::Full ==> api_rank(user.api_access) >= api_rank(
            ApiAccess::Readonly,
        ),
        user.category == UserCategory::Admin ==> category_rank(user.category) > category_rank(
            UserCategory::User,
        ),
{
}

} // verus!
