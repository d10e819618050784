//! The common operators: entities, routes, authentication and tests.
use vstd::prelude::*;
use crate::maps::{NameMap, text_map};
use crate::text::owned;
use crate::psi::PSI_Operator;

verus! {

/// The rust emission of `DefineEntities`.
pub const DEFINE_ENTITIES_RUST: &'static str = r#"// Define Rust structs
struct User {
    id: u32,
    name: String,
    email: String,
}"#;

/// The python emission of `DefineEntities`.
pub const DEFINE_ENTITIES_PYTHON: &'static str = r#"# Define Python classes
class User:
    def __init__(self, id, name, email):
        self.id = id
        self.name = name
        self.email = email"#;

/// The go emission of `DefineEntities`.
pub const DEFINE_ENTITIES_GO: &'static str = r#"// Define Go structs
type User struct {
    ID    uint32 `json:"id"`
    Name  string `json:"name"`
    Email string `json:"email"`
}"#;

/// The javascript emission of `DefineEntities`.
pub const DEFINE_ENTITIES_JAVASCRIPT: &'static str = r#"// Define JavaScript class
class User {
    constructor(id, name, email) {
        this.id = id;
        this.name = name;
        this.email = email;
    }
}"#;

/// The KERN template of `DefineEntities`.
pub const DEFINE_ENTITIES_TEMPLATE: &'static str = r#"rule DefineEntities:
    if has_entities_spec()
    then generate_entities_code()"#;

/// The emissions of `DefineEntities`.
pub open spec fn define_entities_emissions() -> Map<Seq<char>, Seq<char>> {
    map![
        "rust"@ => DEFINE_ENTITIES_RUST@,
        "python"@ => DEFINE_ENTITIES_PYTHON@,
        "go"@ => DEFINE_ENTITIES_GO@,
        "javascript"@ => DEFINE_ENTITIES_JAVASCRIPT@,
    ]
}

pub fn create_define_entities_operator() -> (op: PSI_Operator)
    ensures
        op.id == 1,
        op.name@ == "DefineEntities"@,
        op.domain@ == "code"@,
        op.purity == 0,
        op.arity_in == 1,
        op.arity_out == 1,
        op.cost_hint == 5,
        op.kern_template@ == DEFINE_ENTITIES_TEMPLATE@,
        op.emissions.wf(),
        text_map(op.emissions@) == define_entities_emissions(),
{
    let mut emissions = NameMap::new_texts();
    emissions.put("rust", DEFINE_ENTITIES_RUST);
    emissions.put("python", DEFINE_ENTITIES_PYTHON);
    emissions.put("go", DEFINE_ENTITIES_GO);
    emissions.put("javascript", DEFINE_ENTITIES_JAVASCRIPT);
    PSI_Operator {
        id: 1,
        name: owned("DefineEntities"),
        domain: owned("code"),
        purity: 0,
        arity_in: 1,
        arity_out: 1,
        cost_hint: 5,
        kern_template: owned(DEFINE_ENTITIES_TEMPLATE),
        emissions,
    }
}

/// The rust emission of `CreateRoutes`.
pub const CREATE_ROUTES_RUST: &'static str = r#"// Create Rust routes with Actix
use actix_web::{web, HttpResponse, Responder};

async fn health_check() -> impl Responder {
    HttpResponse::Ok().json("OK")
}

pub fn config(cfg: &mut web::ServiceConfig) {
    cfg.route("/health", web::get().to(health_check));
}"#;

/// The python emission of `CreateRoutes`.
pub const CREATE_ROUTES_PYTHON: &'static str = r#"# Create Python routes with Flask
from flask import Flask, jsonify

app = Flask(__name__)

@app.route('/health')
def health_check():
    return jsonify({"status": "OK"})
"#;

/// The go emission of `CreateRoutes`.
pub const CREATE_ROUTES_GO: &'static str = r#"// Create Go routes with Gin
package main

import (
    "github.com/gin-gonic/gin"
    "net/http"
)

func healthCheck(c *gin.Context) {
    c.JSON(http.StatusOK, gin.H{"status": "OK"})
}

func setupRoutes(router *gin.Engine) {
    router.GET("/health", healthCheck)
}
"#;

/// The javascript emission of `CreateRoutes`.
pub const CREATE_ROUTES_JAVASCRIPT: &'static str = r#"// Create JavaScript routes with Express
const express = require('express');
const router = express.Router();

router.get('/health', (req, res) => {
    res.json({ status: 'OK' });
});

module.exports = router;
"#;

/// The KERN template of `CreateRoutes`.
pub const CREATE_ROUTES_TEMPLATE: &'static str = r#"rule CreateRoutes:
    if has_route_spec()
    then generate_route_code()"#;

/// The emissions of `CreateRoutes`.
pub open spec fn create_routes_emissions() -> Map<Seq<char>, Seq<char>> {
    map![
        "rust"@ => CREATE_ROUTES_RUST@,
        "python"@ => CREATE_ROUTES_PYTHON@,
        "go"@ => CREATE_ROUTES_GO@,
        "javascript"@ => CREATE_ROUTES_JAVASCRIPT@,
    ]
}

pub fn create_create_routes_operator() -> (op: PSI_Operator)
    ensures
        op.id == 2,
        op.name@ == "CreateRoutes"@,
        op.domain@ == "code"@,
        op.purity == 0,
        op.arity_in == 1,
        op.arity_out == 1,
        op.cost_hint == 8,
        op.kern_template@ == CREATE_ROUTES_TEMPLATE@,
        op.emissions.wf(),
        text_map(op.emissions@) == create_routes_emissions(),
{
    let mut emissions = NameMap::new_texts();
    emissions.put("rust", CREATE_ROUTES_RUST);
    emissions.put("python", CREATE_ROUTES_PYTHON);
    emissions.put("go", CREATE_ROUTES_GO);
    emissions.put("javascript", CREATE_ROUTES_JAVASCRIPT);
    PSI_Operator {
        id: 2,
        name: owned("CreateRoutes"),
        domain: owned("code"),
        purity: 0,
        arity_in: 1,
        arity_out: 1,
        cost_hint: 8,
        kern_template: owned(CREATE_ROUTES_TEMPLATE),
        emissions,
    }
}

/// The rust emission of `ImplementAuth`.
pub const IMPLEMENT_AUTH_RUST: &'static str = r#"// Rust authentication implementation
use actix_web::{dev::ServiceRequest, Error};
use futures::future::{ok, Ready};

pub struct AuthMiddleware;

impl<S, B> actix_web::dev::Transform<S, actix_web::dev::ServiceRequest> for AuthMiddleware
where
    S: actix_web::dev::Service<
        actix_web::dev::ServiceRequest,
        Response = actix_web::dev::ServiceResponse<B>,
        Error = Error,
    >,
    S::Future: 'static,
    B: 'static,
{
    type Response = actix_web::dev::ServiceResponse<B>;
    type Error = Error;
    type InitError = ();
    type Transform = AuthMiddleware;
    type Future = Ready<Result<Self::Transform, Self::InitError>>;

    fn new_transform(&self, service: S) -> Self::Future {
        ok(AuthMiddleware)
    }
}"#;

/// The python emission of `ImplementAuth`.
pub const IMPLEMENT_AUTH_PYTHON: &'static str = r#"# Python authentication implementation
from functools import wraps
from flask import request, jsonify

def require_auth(f):
    @wraps(f)
    def decorated_function(*args, **kwargs):
        token = request.headers.get('Authorization')
        if not token:
            return jsonify({'error': 'Missing token'}), 401
        # Validate token here
        return f(*args, **kwargs)
    return decorated_function
"#;

/// The go emission of `ImplementAuth`.
pub const IMPLEMENT_AUTH_GO: &'static str = r#"// Go authentication implementation
package main

import (
    "net/http"
    "strings"
)

func authMiddleware(next http.Handler) http.Handler {
    return http.HandlerFunc(func(w http.ResponseWriter, r *http.Request) {
        authHeader := r.Header.Get("Authorization")
        if authHeader == "" {
            http.Error(w, "Missing authorization header", http.StatusUnauthorized)
            return
        }

        // Validate token here
        token := strings.TrimPrefix(authHeader, "Bearer ")
        if !validateToken(token) {
            http.Error(w, "Invalid token", http.StatusUnauthorized)
            return
        }

        next.ServeHTTP(w, r)
    })
}
"#;

/// The javascript emission of `ImplementAuth`.
pub const IMPLEMENT_AUTH_JAVASCRIPT: &'static str = r#"// JavaScript authentication implementation
const jwt = require('jsonwebtoken');

const authMiddleware = (req, res, next) => {
    const token = req.header('Authorization')?.replace('Bearer ', '');

    if (!token) {
        return res.status(401).json({ error: 'Access denied. No token provided.' });
    }

    try {
        const verified = jwt.verify(token, process.env.JWT_SECRET);
        req.user = verified;
        next();
    } catch (error) {
        res.status(400).json({ error: 'Invalid token.' });
    }
};
"#;

/// The KERN template of `ImplementAuth`.
pub const IMPLEMENT_AUTH_TEMPLATE: &'static str = r#"rule ImplementAuth:
    if needs_auth()
    then generate_auth_mechanism()"#;

/// The emissions of `ImplementAuth`.
pub open spec fn implement_auth_emissions() -> Map<Seq<char>, Seq<char>> {
    map![
        "rust"@ => IMPLEMENT_AUTH_RUST@,
        "python"@ => IMPLEMENT_AUTH_PYTHON@,
        "go"@ => IMPLEMENT_AUTH_GO@,
        "javascript"@ => IMPLEMENT_AUTH_JAVASCRIPT@,
    ]
}

pub fn create_implement_auth_operator() -> (op: PSI_Operator)
    ensures
        op.id == 3,
        op.name@ == "ImplementAuth"@,
        op.domain@ == "security"@,
        op.purity == 0,
        op.arity_in == 1,
        op.arity_out == 1,
        op.cost_hint == 15,
        op.kern_template@ == IMPLEMENT_AUTH_TEMPLATE@,
        op.emissions.wf(),
        text_map(op.emissions@) == implement_auth_emissions(),
{
    let mut emissions = NameMap::new_texts();
    emissions.put("rust", IMPLEMENT_AUTH_RUST);
    emissions.put("python", IMPLEMENT_AUTH_PYTHON);
    emissions.put("go", IMPLEMENT_AUTH_GO);
    emissions.put("javascript", IMPLEMENT_AUTH_JAVASCRIPT);
    PSI_Operator {
        id: 3,
        name: owned("ImplementAuth"),
        domain: owned("security"),
        purity: 0,
        arity_in: 1,
        arity_out: 1,
        cost_hint: 15,
        kern_template: owned(IMPLEMENT_AUTH_TEMPLATE),
        emissions,
    }
}

/// The rust emission of `WriteTests`.
pub const WRITE_TESTS_RUST: &'static str = r#"// Rust tests
#[cfg(test)]
mod tests {
    use super::*;

    #[test]
    fn test_user_creation() {
        let user = User {
            id: 1,
            name: "Test User".to_string(),
            email: "test@example.com".to_string(),
        };

        assert_eq!(user.id, 1);
        assert_eq!(user.name, "Test User");
    }
}"#;

/// The python emission of `WriteTests`.
pub const WRITE_TESTS_PYTHON: &'static str = r#"# Python tests
import unittest
from user import User

class TestUser(unittest.TestCase):
    def test_user_creation(self):
        user = User(1, "Test User", "test@example.com")
        self.assertEqual(user.id, 1)
        self.assertEqual(user.name, "Test User")

if __name__ == '__main__':
    unittest.main()
"#;

/// The go emission of `WriteTests`.
pub const WRITE_TESTS_GO: &'static str = r#"// Go tests
package main

import (
    "testing"
)

func TestUserCreation(t *testing.T) {
    user := User{
        ID:    1,
        Name:  "Test User",
        Email: "test@example.com",
    }

    if user.ID != 1 {
        t.Errorf("Expected ID 1, got %d", user.ID)
    }

    if user.Name != "Test User" {
        t.Errorf("Expected name 'Test User', got %s", user.Name)
    }
}
"#;

/// The javascript emission of `WriteTests`.
pub const WRITE_TESTS_JAVASCRIPT: &'static str = r#"// JavaScript tests
const { User } = require('./user');

describe('User', () => {
    test('should create user with correct properties', () => {
        const user = new User(1, 'Test User', 'test@example.com');

        expect(user.id).toBe(1);
        expect(user.name).toBe('Test User');
    });
});
"#;

/// The KERN template of `WriteTests`.
pub const WRITE_TESTS_TEMPLATE: &'static str = r#"rule WriteTests:
    if has_spec()
    then generate_test_cases()"#;

/// The emissions of `WriteTests`.
pub open spec fn write_tests_emissions() -> Map<Seq<char>, Seq<char>> {
    map![
        "rust"@ => WRITE_TESTS_RUST@,
        "python"@ => WRITE_TESTS_PYTHON@,
        "go"@ => WRITE_TESTS_GO@,
        "javascript"@ => WRITE_TESTS_JAVASCRIPT@,
    ]
}

pub fn create_write_tests_operator() -> (op: PSI_Operator)
    ensures
        op.id == 4,
        op.name@ == "WriteTests"@,
        op.domain@ == "testing"@,
        op.purity == 0,
        op.arity_in == 1,
        op.arity_out == 1,
        op.cost_hint == 10,
        op.kern_template@ == WRITE_TESTS_TEMPLATE@,
        op.emissions.wf(),
        text_map(op.emissions@) == write_tests_emissions(),
{
    let mut emissions = NameMap::new_texts();
    emissions.put("rust", WRITE_TESTS_RUST);
    emissions.put("python", WRITE_TESTS_PYTHON);
    emissions.put("go", WRITE_TESTS_GO);
    emissions.put("javascript", WRITE_TESTS_JAVASCRIPT);
    PSI_Operator {
        id: 4,
        name: owned("WriteTests"),
        domain: owned("testing"),
        purity: 0,
        arity_in: 1,
        arity_out: 1,
        cost_hint: 10,
        kern_template: owned(WRITE_TESTS_TEMPLATE),
        emissions,
    }
}

} // verus!
